//! The questions that are asked on the line under the view.

use tui_input::Input;
use vstd::prelude::*;
use vstd::string::*;
use crate::app::status_line;
use crate::app::status_line::StatusLine;
use crate::config::GitHelperConfig;
use crate::event::{Key, KeyCode};
use crate::input;
use crate::text;

verus! {

/// What is asked for.
#[derive(Debug, PartialEq, Eq)]
pub enum PromptKind {
    ActionMenu,
    CreateBranchBase,
    CreateBranchSuffix { base_branch: String },
    SwitchBranch,
    SetBase,
    SetBranchPrefix,
}

pub ghost enum PromptKindView {
    ActionMenu,
    CreateBranchBase,
    CreateBranchSuffix { base_branch: Seq<char> },
    SwitchBranch,
    SetBase,
    SetBranchPrefix,
}

impl View for PromptKind {
    type V = PromptKindView;

    open spec fn view(&self) -> PromptKindView {
        match self {
            PromptKind::ActionMenu => PromptKindView::ActionMenu,
            PromptKind::CreateBranchBase => PromptKindView::CreateBranchBase,
            PromptKind::CreateBranchSuffix { base_branch } => PromptKindView::CreateBranchSuffix {
                base_branch: base_branch@,
            },
            PromptKind::SwitchBranch => PromptKindView::SwitchBranch,
            PromptKind::SetBase => PromptKindView::SetBase,
            PromptKind::SetBranchPrefix => PromptKindView::SetBranchPrefix,
        }
    }
}

/// A question: the answer is typed, or selected where there are options.
#[derive(Debug)]
pub struct PromptState {
    pub kind: PromptKind,
    pub label: String,
    pub input: Input,
    pub transient: Option<String>,
    pub selector_options: Vec<String>,
    pub selector_index: usize,
}

pub ghost struct PromptView {
    pub kind: PromptKindView,
    pub label: Seq<char>,
    pub input: input::InputView,
    pub transient: Option<Seq<char>>,
    pub options: Seq<Seq<char>>,
    pub index: int,
}

impl View for PromptState {
    type V = PromptView;

    open spec fn view(&self) -> PromptView {
        PromptView {
            kind: self.kind@,
            label: self.label@,
            input: input::held(self.input),
            transient: text::opt_text(self.transient),
            options: text::texts(self.selector_options@),
            index: self.selector_index as int,
        }
    }
}

impl PromptView {
    /// The selected option is one of the options, and the caret stands in what was typed.
    pub open spec fn wf(self) -> bool {
        &&& self.options.len() > 0 ==> 0 <= self.index < self.options.len()
        &&& self.input.caret <= self.input.typed.len()
    }

    /// How the question stands on the line. The caret stands behind as many columns as the text has
    /// bytes.
    pub open spec fn line(self) -> status_line::StatusLineView {
        if self.options.len() == 0 {
            let shown = self.label + ": "@ + self.input.typed;
            status_line::StatusLineView::Input(
                shown,
                Some(text::byte_count(shown) as usize as u16),
                self.transient,
            )
        } else {
            status_line::StatusLineView::Input(
                self.label + ": < "@ + self.options[self.index] + " >"@,
                None,
                self.transient,
            )
        }
    }

    /// What is answered.
    pub open spec fn value(self) -> Seq<char> {
        if self.options.len() == 0 {
            text::trimmed(self.input.typed)
        } else {
            self.options[self.index]
        }
    }

    /// The question with the option before selected, which comes round.
    pub open spec fn option_before(self) -> PromptView {
        PromptView {
            index: if self.index == 0 {
                self.options.len() - 1
            } else {
                self.index - 1
            },
            ..self
        }
    }

    /// The question with the option after selected, which comes round.
    pub open spec fn option_after(self) -> PromptView {
        PromptView {
            index: if self.index + 1 == self.options.len() {
                0
            } else {
                self.index + 1
            },
            ..self
        }
    }

    /// The question after a key that neither closes nor answers it.
    pub open spec fn after_key(self, key: Key) -> PromptView {
        if self.options.len() == 0 {
            PromptView { input: self.input.after_key(key), ..self }
        } else if goes_back(key.code) {
            self.option_before()
        } else if goes_on(key.code) {
            self.option_after()
        } else {
            self
        }
    }
}

/// Whether a key selects the option before.
pub open spec fn goes_back(code: KeyCode) -> bool {
    match code {
        KeyCode::Left
        | KeyCode::Up
        | KeyCode::BackTab
        | KeyCode::Char('h')
        | KeyCode::Char('k') => true,
        _ => false,
    }
}

/// Whether a key selects the option after.
pub open spec fn goes_on(code: KeyCode) -> bool {
    match code {
        KeyCode::Right
        | KeyCode::Down
        | KeyCode::Tab
        | KeyCode::Char('j')
        | KeyCode::Char('l') => true,
        _ => false,
    }
}

/// Going back undoes going on among the options.
pub proof fn options_go_round(p: PromptView)
    requires
        p.wf(),
        p.options.len() > 0,
    ensures
        p.option_after().option_before() == p,
        p.option_before().option_after() == p,
        p.option_after().wf(),
        p.option_before().wf(),
{
}

/// A question whose answer is typed.
pub open spec fn typed_prompt(
    kind: PromptKindView,
    label: Seq<char>,
    transient: Option<Seq<char>>,
    value: Seq<char>,
) -> PromptView {
    PromptView {
        kind,
        label,
        input: input::filled(value),
        transient,
        options: Seq::empty(),
        index: 0,
    }
}

/// A question whose answer is typed.
pub fn open_prompt(
    kind: PromptKind,
    label: String,
    transient: Option<String>,
    initial_value: Option<String>,
) -> (r: PromptState)
    ensures
        r@ == typed_prompt(
            kind@,
            label@,
            text::opt_text(transient),
            match initial_value {
                Some(v) => v@,
                None => Seq::empty(),
            },
        ),
        r@.wf(),
{
    let input = match initial_value {
        Some(value) => input::with_value(input::empty_input(), value),
        None => input::empty_input(),
    };
    let r = PromptState {
        kind,
        label,
        input,
        transient,
        selector_options: Vec::new(),
        selector_index: 0,
    };
    proof {
        assert(r@.options =~= Seq::<Seq<char>>::empty());
        if initial_value is None {
            assert(r@.input.typed =~= Seq::<char>::empty());
        }
    }
    r
}

fn truncated_len(s: &str) -> (r: u16)
    ensures
        r == text::byte_count(s@) as usize as u16,
{
    let n = text::byte_len(s);
    #[verifier::truncate]
    (n as u16)
}

impl PromptState {
    /// How the question stands on the line.
    pub fn refresh_prompt_status_line(&self) -> (r: StatusLine)
        requires
            self@.wf(),
        ensures
            r@ == self@.line(),
    {
        let transient = text::clone_opt(&self.transient);
        if self.selector_options.len() == 0 {
            let mut shown = self.label.clone();
            shown.append(": ");
            shown.append(input::value_of(&self.input));
            let cursor = truncated_len(shown.as_str());
            StatusLine::Input(shown, Some(cursor), transient)
        } else {
            let current = &self.selector_options[self.selector_index];
            assert(self@.options[self.selector_index as int] == current@);
            let mut shown = self.label.clone();
            shown.append(": < ");
            shown.append(current.as_str());
            shown.append(" >");
            StatusLine::Input(shown, None, transient)
        }
    }

    /// Takes a key that neither closes the question nor answers it.
    pub fn handle_key(&mut self, key: Key)
        requires
            old(self)@.wf(),
        ensures
            final(self)@.wf(),
            final(self)@ == old(self)@.after_key(key),
    {
        if self.selector_options.len() == 0 {
            input::handle_key(&mut self.input, key);
            return;
        }
        let count = self.selector_options.len();
        match key.code {
            KeyCode::Left
            | KeyCode::Up
            | KeyCode::BackTab
            | KeyCode::Char('h')
            | KeyCode::Char('k') => {
                self.selector_index = if self.selector_index == 0 {
                    count - 1
                } else {
                    self.selector_index - 1
                };
            },
            KeyCode::Right
            | KeyCode::Down
            | KeyCode::Tab
            | KeyCode::Char('j')
            | KeyCode::Char('l') => {
                self.selector_index = if self.selector_index + 1 == count {
                    0
                } else {
                    self.selector_index + 1
                };
            },
            _ => {},
        }
    }

    /// What is answered.
    pub fn value(&self) -> (r: String)
        requires
            self@.wf(),
        ensures
            r@ == self@.value(),
    {
        if self.selector_options.len() == 0 {
            text::trim(input::value_of(&self.input))
        } else {
            assert(self@.options[self.selector_index as int]
                == self.selector_options@[self.selector_index as int]@);
            self.selector_options[self.selector_index].clone()
        }
    }
}

/// What is asked for the name of a new branch.
pub open spec fn suffix_label(prefix: Seq<char>) -> Seq<char> {
    "New branch suffix ["@ + prefix + " / <name>]"@
}

/// The question what is to be done.
pub open spec fn menu() -> PromptView {
    typed_prompt(
        PromptKindView::ActionMenu,
        "Action [b:create s:switch t:status a:base f:prefix p:push m:merge i:hook r:refresh]"@,
        None,
        Seq::empty(),
    )
}

/// Asks what is to be done.
pub fn action_menu() -> (r: PromptState)
    ensures
        r@.wf(),
        r@ == menu(),
{
    open_prompt(
        PromptKind::ActionMenu,
        "Action [b:create s:switch t:status a:base f:prefix p:push m:merge i:hook r:refresh]".to_string(),
        None,
        None,
    )
}

/// The question for a new branch: for its name where its base is known, else for its base.
pub open spec fn creation(
    base: Option<Seq<char>>,
    prefix: Seq<char>,
    protected: Seq<Seq<char>>,
) -> PromptView {
    match base {
        Some(base_branch) => typed_prompt(
            PromptKindView::CreateBranchSuffix { base_branch },
            suffix_label(prefix),
            None,
            Seq::empty(),
        ),
        None => typed_prompt(
            PromptKindView::CreateBranchBase,
            "Base branch"@,
            Some("Protected bases: "@ + text::joined(protected, ", "@)),
            Seq::empty(),
        ),
    }
}

/// Asks for the name of a new branch after its base.
pub fn branch_suffix_prompt(base_branch: String, prefix: &str) -> (r: PromptState)
    ensures
        r@.wf(),
        r@ == typed_prompt(
            PromptKindView::CreateBranchSuffix { base_branch: base_branch@ },
            suffix_label(prefix@),
            None,
            Seq::empty(),
        ),
{
    let mut label = "New branch suffix [".to_string();
    label.append(prefix);
    label.append(" / <name>]");
    open_prompt(PromptKind::CreateBranchSuffix { base_branch }, label, None, None)
}

/// Asks for a new branch: for its name where its base is known, else for its base.
pub fn create_branch_prompt(base: Option<String>, prefix: &str, config: &GitHelperConfig) -> (r:
    PromptState)
    ensures
        r@.wf(),
        r@ == creation(
            text::opt_text(base),
            prefix@,
            text::texts(config.protected_base_branches@),
        ),
{
    match base {
        Some(base_branch) => branch_suffix_prompt(base_branch, prefix),
        None => {
            let bases = text::join(&config.protected_base_branches, ", ");
            open_prompt(
                PromptKind::CreateBranchBase,
                "Base branch".to_string(),
                Some(text::concat("Protected bases: ", bases.as_str())),
                None,
            )
        },
    }
}

/// The question for the branch to switch to.
pub open spec fn switching(local_branches: Seq<Seq<char>>) -> PromptView {
    let branches = text::joined(local_branches, ", "@);
    typed_prompt(
        PromptKindView::SwitchBranch,
        "Switch branch"@,
        if branches.len() == 0 {
            None
        } else {
            Some("Local branches: "@ + branches)
        },
        Seq::empty(),
    )
}

/// Asks for the branch to switch to.
pub fn switch_branch_prompt(local_branches: &Vec<String>) -> (r: PromptState)
    ensures
        r@.wf(),
        r@ == switching(text::texts(local_branches@)),
{
    let branches = text::join(local_branches, ", ");
    open_prompt(
        PromptKind::SwitchBranch,
        "Switch branch".to_string(),
        if text::byte_len(branches.as_str()) == 0 {
            None
        } else {
            Some(text::concat("Local branches: ", branches.as_str()))
        },
        None,
    )
}

/// Where a text stands among others, from `from` on, or the end.
pub open spec fn place_of(options: Seq<Seq<char>>, s: Seq<char>, from: int) -> int
    decreases options.len() - from,
{
    if from >= options.len() || options[from] == s {
        from
    } else {
        place_of(options, s, from + 1)
    }
}

/// What is shown as the base of a branch.
pub open spec fn base_shown(recorded: Option<Seq<char>>) -> Seq<char> {
    match recorded {
        Some(b) => b,
        None => "unset"@,
    }
}

/// The question for the base of a branch: the local branches are the options, and the base that is
/// recorded is selected, else the first.
pub open spec fn base_prompt(
    branch: Seq<char>,
    options: Seq<Seq<char>>,
    recorded: Option<Seq<char>>,
) -> PromptView {
    let current = base_shown(recorded);
    let place = place_of(options, current, 0);
    let index = if place < options.len() {
        place
    } else {
        0
    };
    PromptView {
        kind: PromptKindView::SetBase,
        label: "Base branch for "@ + branch,
        input: input::filled(options[index]),
        transient: Some(
            "Current: "@ + current
                + ". Select any local branch with left/right or j/k."@,
        ),
        options,
        index,
    }
}

/// What an optional question asks, or why there is none.
pub open spec fn prompt_outcome(r: Result<PromptState, String>) -> Result<PromptView, Seq<char>> {
    match r {
        Ok(p) => Ok(p@),
        Err(e) => Err(e@),
    }
}

/// The question for the base of the current branch, or why it cannot be asked.
pub open spec fn basing(
    branch: Option<Seq<char>>,
    local_branches: Seq<Seq<char>>,
    recorded: Option<Seq<char>>,
) -> Result<PromptView, Seq<char>> {
    match branch {
        None => Err("Not on a branch"@),
        Some(b) => if local_branches.len() == 0 {
            Err("No local branches available to select as a base"@)
        } else {
            Ok(base_prompt(b, local_branches, recorded))
        },
    }
}

/// Asks for the base of the current branch.
pub fn set_base_prompt(
    branch: Option<String>,
    local_branches: Vec<String>,
    recorded: Option<String>,
) -> (r: Result<PromptState, String>)
    ensures
        prompt_outcome(r) == basing(
            text::opt_text(branch),
            text::texts(local_branches@),
            text::opt_text(recorded),
        ),
        r matches Ok(p) ==> p@.wf(),
{
    let branch = match branch {
        Some(b) => b,
        None => return Err("Not on a branch".to_string()),
    };
    if local_branches.len() == 0 {
        return Err("No local branches available to select as a base".to_string());
    }
    let ghost options = text::texts(local_branches@);
    let ghost named = text::opt_text(recorded);
    let current = match recorded {
        Some(b) => b,
        None => "unset".to_string(),
    };
    let mut i: usize = 0;
    while i < local_branches.len() && !text::same(local_branches[i].as_str(), current.as_str())
        invariant
            i <= local_branches@.len(),
            options == text::texts(local_branches@),
            place_of(options, current@, 0) == place_of(options, current@, i as int),
        decreases local_branches@.len() - i,
    {
        assert(options[i as int] == local_branches@[i as int]@);
        i = i + 1;
    }
    if i < local_branches.len() {
        assert(options[i as int] == local_branches@[i as int]@);
    }
    let selector_index = if i < local_branches.len() {
        i
    } else {
        0
    };
    let mut label = "Base branch for ".to_string();
    label.append(branch.as_str());
    let mut transient = "Current: ".to_string();
    transient.append(current.as_str());
    transient.append(". Select any local branch with left/right or j/k.");
    assert(options[selector_index as int] == local_branches@[selector_index as int]@);
    let value = local_branches[selector_index].clone();
    let r = PromptState {
        kind: PromptKind::SetBase,
        label,
        input: input::with_value(input::empty_input(), value),
        transient: Some(transient),
        selector_options: local_branches,
        selector_index,
    };
    Ok(r)
}

/// The question for the prefix of new branches.
pub open spec fn prefixing(current: Seq<char>, default_prefix: Seq<char>) -> PromptView {
    typed_prompt(
        PromptKindView::SetBranchPrefix,
        "Branch prefix"@,
        Some(
            "Current: "@ + current + ". Default: "@ + default_prefix
                + ". Empty resets to default."@,
        ),
        current,
    )
}

/// Asks for the prefix of new branches.
pub fn set_branch_prefix_prompt(current_prefix: &str, config: &GitHelperConfig) -> (r: PromptState)
    ensures
        r@.wf(),
        r@ == prefixing(current_prefix@, config.branch_prefix@),
{
    let mut transient = "Current: ".to_string();
    transient.append(current_prefix);
    transient.append(". Default: ");
    transient.append(config.branch_prefix.as_str());
    transient.append(". Empty resets to default.");
    open_prompt(
        PromptKind::SetBranchPrefix,
        "Branch prefix".to_string(),
        Some(transient),
        Some(current_prefix.to_string()),
    )
}

/// What is chosen on the menu of actions.
#[derive(Debug, Clone, Copy, PartialEq, Eq, Structural)]
pub enum MenuChoice {
    CreateBranch,
    SwitchBranch,
    OpenStatus,
    SetBase,
    SetBranchPrefix,
    Push,
    MergeBase,
    InstallHook,
    Refresh,
    Unknown(char),
    Missing,
}

/// The choice that the first letter makes.
pub open spec fn choice_for(value: Seq<char>) -> MenuChoice {
    if value.len() == 0 {
        MenuChoice::Missing
    } else {
        match value[0] {
            'b' => MenuChoice::CreateBranch,
            's' => MenuChoice::SwitchBranch,
            't' => MenuChoice::OpenStatus,
            'a' => MenuChoice::SetBase,
            'f' => MenuChoice::SetBranchPrefix,
            'p' => MenuChoice::Push,
            'm' => MenuChoice::MergeBase,
            'i' => MenuChoice::InstallHook,
            'r' => MenuChoice::Refresh,
            other => MenuChoice::Unknown(other),
        }
    }
}

pub fn submit_action_menu(value: &str) -> (r: MenuChoice)
    ensures
        r == choice_for(value@),
{
    let c = text::chars_of(value);
    if c.len() == 0 {
        return MenuChoice::Missing;
    }
    match c[0] {
        'b' => MenuChoice::CreateBranch,
        's' => MenuChoice::SwitchBranch,
        't' => MenuChoice::OpenStatus,
        'a' => MenuChoice::SetBase,
        'f' => MenuChoice::SetBranchPrefix,
        'p' => MenuChoice::Push,
        'm' => MenuChoice::MergeBase,
        'i' => MenuChoice::InstallHook,
        'r' => MenuChoice::Refresh,
        other => MenuChoice::Unknown(other),
    }
}

/// What is said of a choice that leads nowhere.
pub open spec fn choice_error(choice: MenuChoice) -> Option<Seq<char>> {
    match choice {
        MenuChoice::Unknown(c) => Some("Unknown action '"@ + seq![c] + "'"@),
        MenuChoice::Missing => Some("No action selected"@),
        _ => None,
    }
}

pub fn menu_error(choice: MenuChoice) -> (r: Option<String>)
    ensures
        text::opt_text(r) == choice_error(choice),
{
    match choice {
        MenuChoice::Unknown(c) => {
            let mut message = "Unknown action '".to_string();
            let letter = text::text_of(vec![c].as_slice(), 0, 1);
            assert(letter@ =~= seq![c]);
            message.append(letter.as_str());
            message.append("'");
            Some(message)
        },
        MenuChoice::Missing => Some("No action selected".to_string()),
        _ => None,
    }
}

// ---------------------------------------------------------------------------------------------
// Laws

proof fn place_is_first(options: Seq<Seq<char>>, s: Seq<char>, from: int, i: int)
    requires
        0 <= from <= i <= options.len(),
        forall|j: int| from <= j < i ==> #[trigger] options[j] != s,
        i < options.len() ==> options[i] == s,
    ensures
        place_of(options, s, from) == i,
    decreases i - from,
{
    if from < i {
        assert(options[from] != s);
        place_is_first(options, s, from + 1, i);
    }
}

/// Asked for the base of a branch, the user chooses among the local branches, and the base that is
/// recorded is the one chosen at first. Without a branch, or without local branches, nothing is
/// asked.
pub proof fn recorded_bases_are_offered(
    branch: Seq<char>,
    local_branches: Seq<Seq<char>>,
    recorded: Seq<char>,
    i: int,
)
    requires
        0 <= i < local_branches.len(),
        local_branches[i] == recorded,
        forall|j: int| 0 <= j < i ==> #[trigger] local_branches[j] != recorded,
    ensures
        basing(Some(branch), local_branches, Some(recorded)) matches Ok(p) && p.options
            == local_branches && p.value() == recorded && p.kind is SetBase && p.wf(),
        basing(None, local_branches, Some(recorded)) is Err,
        basing(Some(branch), Seq::empty(), Some(recorded)) is Err,
{
    place_is_first(local_branches, recorded, 0, i);
}

/// The keys to the right choose the next option, those to the left the one before, and the last
/// option is followed by the first.
pub proof fn options_are_chosen(p: PromptView, key: Key)
    requires
        p.options.len() > 0,
        0 <= p.index < p.options.len(),
    ensures
        key.code == KeyCode::Right || key.code == KeyCode::Down || key.code == KeyCode::Tab
            || key.code == KeyCode::Char('j') || key.code == KeyCode::Char('l') ==> p.after_key(
            key,
        ).value() == p.options[(p.index + 1) % (p.options.len() as int)],
        key.code == KeyCode::Left || key.code == KeyCode::Up || key.code == KeyCode::BackTab
            || key.code == KeyCode::Char('h') || key.code == KeyCode::Char('k') ==> p.after_key(
            key,
        ).value() == p.options[(p.index + p.options.len() - 1) % (p.options.len() as int)],
        p.after_key(key).options == p.options,
        p.after_key(key).kind == p.kind,
{
    let n = p.options.len() as int;
    if p.index + 1 == n {
        assert((p.index + 1) % n == 0) by (nonlinear_arith)
            requires
                p.index + 1 == n,
                n > 0,
        ;
    } else {
        vstd::arithmetic::div_mod::lemma_small_mod((p.index + 1) as nat, n as nat);
    }
    if p.index == 0 {
        vstd::arithmetic::div_mod::lemma_small_mod((n - 1) as nat, n as nat);
    } else {
        vstd::arithmetic::div_mod::lemma_small_mod((p.index - 1) as nat, n as nat);
        vstd::arithmetic::div_mod::lemma_mod_add_multiples_vanish(p.index - 1, n);
        assert(p.index + n - 1 == n + (p.index - 1));
    }
}

/// What is typed is the answer, without the white space around it, and stands behind the question on
/// the status line.
pub proof fn answers_are_typed(p: PromptView, front: Seq<char>, s: Seq<char>, back: Seq<char>)
    requires
        p.options.len() == 0,
        p.input.typed == front + s + back,
        forall|i: int| 0 <= i < front.len() ==> text::white(#[trigger] front[i]),
        forall|i: int| 0 <= i < back.len() ==> text::white(#[trigger] back[i]),
        s.len() > 0,
        !text::white(s[0]),
        !text::white(s.last()),
    ensures
        p.value() == s,
        p.line() matches status_line::StatusLineView::Input(shown, _, _) && shown == p.label + ": "@
            + p.input.typed,
{
    text::trimming_takes_white_space(front, s, back);
}

/// A new branch is asked for by its suffix where the base is known, and by its base where it is not.
pub proof fn unknown_bases_are_asked_for(
    base: Seq<char>,
    prefix: Seq<char>,
    protected: Seq<Seq<char>>,
)
    ensures
        creation(Some(base), prefix, protected).kind == (PromptKindView::CreateBranchSuffix {
            base_branch: base,
        }),
        text::holds(creation(Some(base), prefix, protected).label, prefix),
        creation(None, prefix, protected).kind == PromptKindView::CreateBranchBase,
        creation(Some(base), prefix, protected).input.typed.len() == 0,
        prefixing(prefix, base).input.typed == prefix,
        prefixing(prefix, base).kind == PromptKindView::SetBranchPrefix,
        switching(protected).kind == PromptKindView::SwitchBranch,
        menu().kind == PromptKindView::ActionMenu,
{
    text::middles_are_held("New branch suffix ["@, prefix, " / <name>]"@);
}

} // verus!
