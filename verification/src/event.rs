//! What the user asks for, and what the program is to do.

use vstd::prelude::*;
use crate::input;
use crate::text;
use crate::view::context;
use crate::view::context::RefreshViewContext;
use crate::workflow;
use crate::workflow::WorkflowAction;

verus! {

/// A key of the keyboard.
#[derive(Debug, Clone, Copy, PartialEq, Eq, Structural)]
pub enum KeyCode {
    Esc,
    Enter,
    Tab,
    BackTab,
    Left,
    Right,
    Up,
    Down,
    Home,
    End,
    Backspace,
    Delete,
    Char(char),
    Other,
}

/// The keys that were held down with another.
#[derive(Debug, Clone, Copy, Default, PartialEq, Eq, Structural)]
pub struct Modifiers {
    pub shift: bool,
    pub control: bool,
    pub alt: bool,
    pub super_key: bool,
    pub hyper: bool,
    pub meta: bool,
}

/// A flag as a number.
pub open spec fn flag_bit(flag: bool, bit: u8) -> int {
    if flag {
        bit as int
    } else {
        0
    }
}

fn bit_of(flag: bool, bit: u8) -> (r: u8)
    ensures
        r == flag_bit(flag, bit),
{
    if flag {
        bit
    } else {
        0
    }
}

impl Modifiers {
    /// The keys as a terminal numbers them, each by a bit.
    pub open spec fn numbered(self) -> u8 {
        (flag_bit(self.shift, 1) + flag_bit(self.control, 2) + flag_bit(self.alt, 4) + flag_bit(
            self.super_key,
            8,
        ) + flag_bit(self.hyper, 16) + flag_bit(self.meta, 32)) as u8
    }

    pub fn bits(&self) -> (r: u8)
        ensures
            r == self.numbered(),
    {
        bit_of(self.shift, 1) + bit_of(self.control, 2) + bit_of(self.alt, 4) + bit_of(
            self.super_key,
            8,
        ) + bit_of(self.hyper, 16) + bit_of(self.meta, 32)
    }
}

/// What happened to a key.
#[derive(Debug, Clone, Copy, PartialEq, Eq, Structural)]
pub enum KeyKind {
    Press,
    Repeat,
    Release,
}

/// A key as it comes from the terminal.
#[derive(Debug, Clone, Copy, PartialEq, Eq, Structural)]
pub struct Key {
    pub code: KeyCode,
    pub modifiers: Modifiers,
    pub kind: KeyKind,
}

impl Key {
    pub open spec fn is_forward(self) -> bool {
        self.code == KeyCode::Tab && !self.modifiers.shift
    }

    pub open spec fn is_reverse(self) -> bool {
        self.code == KeyCode::BackTab || (self.code == KeyCode::Tab && self.modifiers.shift)
    }

    /// What the key asks of an input line.
    pub open spec fn request(self) -> Option<input::EditRequest> {
        input::request_of(self.code, self.modifiers.numbered(), self.kind)
    }
}

/// What the user asks for.
#[derive(Debug, Clone, Copy, PartialEq, Eq, Structural)]
pub enum UserEvent {
    ForceQuit,
    Quit,
    HelpToggle,
    Cancel,
    Close,
    NavigateUp,
    NavigateDown,
    NavigateRight,
    NavigateLeft,
    SelectUp,
    SelectDown,
    GoToTop,
    GoToBottom,
    GoToParent,
    ScrollUp,
    ScrollDown,
    PageUp,
    PageDown,
    HalfPageUp,
    HalfPageDown,
    SelectTop,
    SelectMiddle,
    SelectBottom,
    GoToNext,
    GoToPrevious,
    Confirm,
    RefList,
    Search,
    UserCommand(usize),
    IgnoreCaseToggle,
    FuzzyToggle,
    ShortCopy,
    FullCopy,
    Refresh,
    ActionMenu,
    CreateBranch,
    SwitchBranch,
    OpenStatus,
    StatusToggle,
    StatusCommit,
    StatusDiscard,
    PushCurrent,
    MergeBase,
    InstallHook,
    SetBase,
    SetBranchPrefix,
    Unknown,
}

impl UserEvent {
    /// Whether a number before the key repeats the event.
    pub open spec fn countable(self) -> bool {
        match self {
            UserEvent::NavigateUp
            | UserEvent::NavigateDown
            | UserEvent::SelectUp
            | UserEvent::SelectDown
            | UserEvent::GoToParent
            | UserEvent::ScrollUp
            | UserEvent::ScrollDown
            | UserEvent::PageUp
            | UserEvent::PageDown
            | UserEvent::HalfPageUp
            | UserEvent::HalfPageDown => true,
            _ => false,
        }
    }

    pub fn is_countable(&self) -> (r: bool)
        ensures
            r == self.countable(),
    {
        match self {
            UserEvent::NavigateUp
            | UserEvent::NavigateDown
            | UserEvent::SelectUp
            | UserEvent::SelectDown
            | UserEvent::GoToParent
            | UserEvent::ScrollUp
            | UserEvent::ScrollDown
            | UserEvent::PageUp
            | UserEvent::PageDown
            | UserEvent::HalfPageUp
            | UserEvent::HalfPageDown => true,
            _ => false,
        }
    }
}

/// What the user asks for, and how many times.
#[derive(Debug, Clone, Copy, PartialEq, Eq, Structural)]
pub struct UserEventWithCount {
    pub event: UserEvent,
    pub count: usize,
}

impl UserEventWithCount {
    /// Nothing is asked for no times.
    pub fn new(event: UserEvent, count: usize) -> (r: UserEventWithCount)
        ensures
            r == (UserEventWithCount {
                event,
                count: if count == 0 {
                    1
                } else {
                    count
                },
            }),
    {
        UserEventWithCount {
            event,
            count: if count == 0 {
                1
            } else {
                count
            },
        }
    }

    pub fn from_event(event: UserEvent) -> (r: UserEventWithCount)
        ensures
            r == (UserEventWithCount { event, count: 1 }),
    {
        UserEventWithCount::new(event, 1)
    }
}

/// What the program is to do.
#[derive(Debug)]
pub enum AppEvent {
    Key(Key),
    Resize(usize, usize),
    Quit,
    OpenActionMenu,
    OpenCreateBranchPrompt,
    OpenSwitchBranchPrompt,
    OpenSetBasePrompt,
    OpenSetBranchPrefixPrompt,
    OpenStatus,
    CloseStatus,
    OpenDetail,
    CloseDetail,
    OpenUserCommand(usize),
    CloseUserCommand,
    OpenRefs,
    CloseRefs,
    OpenHelp,
    CloseHelp,
    SelectOlderCommit,
    SelectNewerCommit,
    SelectParentCommit,
    CopyToClipboard { name: String, value: String },
    Refresh(RefreshViewContext),
    ClearStatusLine,
    UpdateStatusInput(String, Option<u16>, Option<String>),
    NotifyInfo(String),
    NotifySuccess(String),
    NotifyWarn(String),
    NotifyError(String),
    PushCurrentBranch,
    MergeBaseIntoCurrent,
    InstallHook,
    RunWorkflowAction(WorkflowAction),
}

pub ghost enum AppEventView {
    Key(Key),
    Resize(usize, usize),
    Quit,
    OpenActionMenu,
    OpenCreateBranchPrompt,
    OpenSwitchBranchPrompt,
    OpenSetBasePrompt,
    OpenSetBranchPrefixPrompt,
    OpenStatus,
    CloseStatus,
    OpenDetail,
    CloseDetail,
    OpenUserCommand(usize),
    CloseUserCommand,
    OpenRefs,
    CloseRefs,
    OpenHelp,
    CloseHelp,
    SelectOlderCommit,
    SelectNewerCommit,
    SelectParentCommit,
    CopyToClipboard { name: Seq<char>, value: Seq<char> },
    Refresh(context::RefreshView),
    ClearStatusLine,
    UpdateStatusInput(Seq<char>, Option<u16>, Option<Seq<char>>),
    NotifyInfo(Seq<char>),
    NotifySuccess(Seq<char>),
    NotifyWarn(Seq<char>),
    NotifyError(Seq<char>),
    PushCurrentBranch,
    MergeBaseIntoCurrent,
    InstallHook,
    RunWorkflowAction(workflow::ActionView),
}

impl View for AppEvent {
    type V = AppEventView;

    open spec fn view(&self) -> AppEventView {
        match self {
            AppEvent::Key(k) => AppEventView::Key(*k),
            AppEvent::Resize(w, h) => AppEventView::Resize(*w, *h),
            AppEvent::Quit => AppEventView::Quit,
            AppEvent::OpenActionMenu => AppEventView::OpenActionMenu,
            AppEvent::OpenCreateBranchPrompt => AppEventView::OpenCreateBranchPrompt,
            AppEvent::OpenSwitchBranchPrompt => AppEventView::OpenSwitchBranchPrompt,
            AppEvent::OpenSetBasePrompt => AppEventView::OpenSetBasePrompt,
            AppEvent::OpenSetBranchPrefixPrompt => AppEventView::OpenSetBranchPrefixPrompt,
            AppEvent::OpenStatus => AppEventView::OpenStatus,
            AppEvent::CloseStatus => AppEventView::CloseStatus,
            AppEvent::OpenDetail => AppEventView::OpenDetail,
            AppEvent::CloseDetail => AppEventView::CloseDetail,
            AppEvent::OpenUserCommand(n) => AppEventView::OpenUserCommand(*n),
            AppEvent::CloseUserCommand => AppEventView::CloseUserCommand,
            AppEvent::OpenRefs => AppEventView::OpenRefs,
            AppEvent::CloseRefs => AppEventView::CloseRefs,
            AppEvent::OpenHelp => AppEventView::OpenHelp,
            AppEvent::CloseHelp => AppEventView::CloseHelp,
            AppEvent::SelectOlderCommit => AppEventView::SelectOlderCommit,
            AppEvent::SelectNewerCommit => AppEventView::SelectNewerCommit,
            AppEvent::SelectParentCommit => AppEventView::SelectParentCommit,
            AppEvent::CopyToClipboard { name, value } => AppEventView::CopyToClipboard {
                name: name@,
                value: value@,
            },
            AppEvent::Refresh(c) => AppEventView::Refresh(c@),
            AppEvent::ClearStatusLine => AppEventView::ClearStatusLine,
            AppEvent::UpdateStatusInput(m, c, t) => AppEventView::UpdateStatusInput(
                m@,
                *c,
                text::opt_text(*t),
            ),
            AppEvent::NotifyInfo(m) => AppEventView::NotifyInfo(m@),
            AppEvent::NotifySuccess(m) => AppEventView::NotifySuccess(m@),
            AppEvent::NotifyWarn(m) => AppEventView::NotifyWarn(m@),
            AppEvent::NotifyError(m) => AppEventView::NotifyError(m@),
            AppEvent::PushCurrentBranch => AppEventView::PushCurrentBranch,
            AppEvent::MergeBaseIntoCurrent => AppEventView::MergeBaseIntoCurrent,
            AppEvent::InstallHook => AppEventView::InstallHook,
            AppEvent::RunWorkflowAction(a) => AppEventView::RunWorkflowAction(a@),
        }
    }
}

/// What an optional event says.
pub open spec fn opt_event(r: Option<AppEvent>) -> Option<AppEventView> {
    match r {
        Some(e) => Some(e@),
        None => None,
    }
}

} // verus!
