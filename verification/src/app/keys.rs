//! What becomes of a key.

use vstd::prelude::*;
use vstd::string::*;
use crate::app::prompt;
use crate::app::prompt::PromptState;
use crate::app::status_line;
use crate::app::status_line::StatusLine;
use crate::event::{Key, KeyCode, UserEvent, UserEventWithCount};
use crate::numerals;
use crate::text;

verus! {

/// What stands under the view, and what was typed so far.
#[derive(Debug)]
pub struct AppStatus {
    pub status_line: StatusLine,
    pub numeric_prefix: String,
    pub prompt: Option<PromptState>,
}

pub ghost struct AppStatusView {
    pub line: status_line::StatusLineView,
    pub prefix: Seq<char>,
    pub prompt: Option<prompt::PromptView>,
}

/// What an optional question asks.
pub open spec fn opt_prompt(p: Option<PromptState>) -> Option<prompt::PromptView> {
    match p {
        Some(p) => Some(p@),
        None => None,
    }
}

impl View for AppStatus {
    type V = AppStatusView;

    open spec fn view(&self) -> AppStatusView {
        AppStatusView {
            line: self.status_line@,
            prefix: self.numeric_prefix@,
            prompt: opt_prompt(self.prompt),
        }
    }
}

impl Default for AppStatus {
    fn default() -> (r: AppStatus)
        ensures
            r@ == (AppStatusView {
                line: status_line::StatusLineView::Blank,
                prefix: Seq::empty(),
                prompt: None,
            }),
    {
        let r = AppStatus {
            status_line: StatusLine::Blank,
            numeric_prefix: String::new(),
            prompt: None,
        };
        assert(r@.prefix =~= Seq::<char>::empty());
        r
    }
}

/// What is to be done with a key.
#[derive(Debug, Clone, Copy, PartialEq, Eq, Structural)]
pub enum KeyStep {
    /// The question that is asked gets the key.
    ToPrompt,
    /// The key has done its work.
    Done,
    /// The program is to end.
    Quit,
    /// The view gets the event.
    ToView(UserEventWithCount),
}

/// How often an event is asked for: as often as the number before it says, where it can be
/// repeated.
pub open spec fn counted(prefix: Seq<char>, e: UserEvent) -> UserEventWithCount {
    UserEventWithCount {
        event: e,
        count: if e.countable() {
            match numerals::parsed_number(prefix) {
                Some(n) if n > 0 => n,
                _ => 1,
            }
        } else {
            1
        },
    }
}

pub fn process_numeric_prefix(numeric_prefix: &str, user_event: UserEvent, _key_event: Key) -> (r:
    UserEventWithCount)
    ensures
        r == counted(numeric_prefix@, user_event),
{
    if user_event.is_countable() {
        let count = match numerals::parse_number(numeric_prefix) {
            Some(n) => n,
            None => 1,
        };
        UserEventWithCount::new(user_event, count)
    } else {
        UserEventWithCount::from_event(user_event)
    }
}

/// A number that was typed before an event that can be repeated is how often it is asked for.
pub proof fn typed_numbers_count(n: usize, e: UserEvent)
    requires
        n > 0,
        e.countable(),
    ensures
        counted(numerals::decimal(n as nat), e).count == n,
{
    numerals::decimal_reads_back(n as nat);
}

pub fn is_reverse_tab_key(key: Key) -> (r: bool)
    ensures
        r == key.is_reverse(),
{
    match key.code {
        KeyCode::BackTab => true,
        KeyCode::Tab => key.modifiers.shift,
        _ => false,
    }
}

/// Whether a character goes on a number: a digit, and not a leading zero.
pub open spec fn goes_on_number(prefix: Seq<char>, c: char) -> bool {
    '0' <= c && c <= '9' && (c != '0' || prefix.len() > 0)
}

impl AppStatusView {
    pub open spec fn with_line(self, line: status_line::StatusLineView) -> AppStatusView {
        AppStatusView { line, ..self }
    }

    pub open spec fn with_prefix(self, prefix: Seq<char>) -> AppStatusView {
        AppStatusView { prefix, ..self }
    }

    /// Nothing is typed before an event.
    pub open spec fn uncounted(self) -> AppStatusView {
        self.with_prefix(Seq::empty())
    }

    /// A notification goes with the next key.
    pub open spec fn after_key(self) -> AppStatusView {
        if self.line.passing() {
            self.with_line(status_line::StatusLineView::Blank)
        } else {
            self
        }
    }
}

/// What becomes of a key that is bound to an event or to none: the status afterwards, and what is
/// to be done. `captures` says whether the view takes keys as text.
pub open spec fn key_outcome(
    s: AppStatusView,
    captures: bool,
    bound: Option<UserEvent>,
    key: Key,
) -> (AppStatusView, KeyStep) {
    let t = s.after_key();
    let unknown = KeyStep::ToView(
        UserEventWithCount { event: UserEvent::Unknown, count: 1 },
    );
    if s.prompt is Some {
        (s, KeyStep::ToPrompt)
    } else if s.line is NotificationError {
        (t, KeyStep::Done)
    } else if bound == Some(UserEvent::ForceQuit) {
        (t, KeyStep::Quit)
    } else if captures {
        if bound == Some(UserEvent::StatusCommit) {
            (
                t.uncounted(),
                KeyStep::ToView(
                    UserEventWithCount { event: UserEvent::StatusCommit, count: 1 },
                ),
            )
        } else {
            (t.uncounted(), unknown)
        }
    } else {
        match bound {
            Some(UserEvent::Cancel) if s.prefix.len() > 0 => (t.uncounted(), KeyStep::Done),
            Some(e) => (t.uncounted(), KeyStep::ToView(counted(s.prefix, e))),
            None => if key.is_reverse() || t.line is Input {
                (t.uncounted(), unknown)
            } else {
                match key.code {
                    KeyCode::Char(c) if goes_on_number(s.prefix, c) => (
                        t.with_prefix(s.prefix.push(c)),
                        KeyStep::Done,
                    ),
                    _ => (t, KeyStep::Done),
                }
            },
        }
    }
}

fn clear(s: &mut String)
    ensures
        final(s)@ == Seq::<char>::empty(),
{
    *s = String::new();
    assert(s@ =~= Seq::<char>::empty());
}

impl AppStatus {
    /// What is to be done with a key.
    pub fn key_step(&self, captures: bool, bound: Option<UserEvent>, key: Key) -> (r: KeyStep)
        ensures
            r == key_outcome(self@, captures, bound, key).1,
    {
        if self.prompt.is_some() {
            return KeyStep::ToPrompt;
        }
        if let StatusLine::NotificationError(_) = &self.status_line {
            return KeyStep::Done;
        }
        let unknown = UserEventWithCount::from_event(UserEvent::Unknown);
        if captures {
            return match bound {
                Some(UserEvent::ForceQuit) => KeyStep::Quit,
                Some(UserEvent::StatusCommit) => KeyStep::ToView(
                    UserEventWithCount::from_event(UserEvent::StatusCommit),
                ),
                _ => KeyStep::ToView(unknown),
            };
        }
        match bound {
            Some(UserEvent::ForceQuit) => KeyStep::Quit,
            Some(e) => {
                if e == UserEvent::Cancel && text::byte_len(self.numeric_prefix.as_str()) > 0 {
                    return KeyStep::Done;
                }
                KeyStep::ToView(process_numeric_prefix(self.numeric_prefix.as_str(), e, key))
            },
            None => {
                let in_input = match &self.status_line {
                    StatusLine::Input(_, _, _) => true,
                    _ => false,
                };
                if is_reverse_tab_key(key) || in_input {
                    KeyStep::ToView(unknown)
                } else {
                    KeyStep::Done
                }
            },
        }
    }

    /// Decides what becomes of a key.
    pub fn handle_key(&mut self, captures: bool, bound: Option<UserEvent>, key: Key) -> (r: KeyStep)
        ensures
            (final(self)@, r) == key_outcome(old(self)@, captures, bound, key),
    {
        let step = self.key_step(captures, bound, key);
        if self.prompt.is_some() {
            return step;
        }
        let failed = match &self.status_line {
            StatusLine::NotificationError(_) => true,
            _ => false,
        };
        let passing = match &self.status_line {
            StatusLine::Blank | StatusLine::Input(_, _, _) => false,
            _ => true,
        };
        if passing {
            self.status_line = StatusLine::Blank;
        }
        if failed {
            return step;
        }
        match step {
            KeyStep::ToPrompt | KeyStep::Quit => {},
            KeyStep::ToView(_) => clear(&mut self.numeric_prefix),
            KeyStep::Done => match (bound, key.code) {
                (Some(_), _) => clear(&mut self.numeric_prefix),
                (None, KeyCode::Char(c)) => {
                    let started = text::byte_len(self.numeric_prefix.as_str()) > 0;
                    if '0' <= c && c <= '9' && (c != '0' || started) {
                        let digit = text::text_of(vec![c].as_slice(), 0, 1);
                        assert(digit@ =~= seq![c]);
                        let ghost before = self.numeric_prefix@;
                        self.numeric_prefix.append(digit.as_str());
                        assert(self.numeric_prefix@ =~= before.push(c));
                    }
                },
                _ => {},
            },
        }
        step
    }

    pub fn clear_status_line(&mut self)
        ensures
            final(self)@ == old(self)@.with_line(status_line::StatusLineView::Blank),
    {
        self.status_line = StatusLine::Blank;
    }

    pub fn update_status_input(
        &mut self,
        msg: String,
        cursor_pos: Option<u16>,
        transient_msg: Option<String>,
    )
        ensures
            final(self)@ == old(self)@.with_line(
                status_line::StatusLineView::Input(msg@, cursor_pos, text::opt_text(transient_msg)),
            ),
    {
        self.status_line = StatusLine::Input(msg, cursor_pos, transient_msg);
    }

    pub fn info_notification(&mut self, msg: String)
        ensures
            final(self)@ == old(self)@.with_line(
                status_line::StatusLineView::NotificationInfo(msg@),
            ),
    {
        self.status_line = StatusLine::NotificationInfo(msg);
    }

    pub fn success_notification(&mut self, msg: String)
        ensures
            final(self)@ == old(self)@.with_line(
                status_line::StatusLineView::NotificationSuccess(msg@),
            ),
    {
        self.status_line = StatusLine::NotificationSuccess(msg);
    }

    pub fn warn_notification(&mut self, msg: String)
        ensures
            final(self)@ == old(self)@.with_line(
                status_line::StatusLineView::NotificationWarn(msg@),
            ),
    {
        self.status_line = StatusLine::NotificationWarn(msg);
    }

    pub fn error_notification(&mut self, msg: String)
        ensures
            final(self)@ == old(self)@.with_line(
                status_line::StatusLineView::NotificationError(msg@),
            ),
    {
        self.status_line = StatusLine::NotificationError(msg);
    }

    /// Asks a question, which stands on the line.
    pub fn open_prompt(&mut self, prompt: PromptState)
        requires
            prompt@.wf(),
        ensures
            final(self)@ == old(self)@.asking(prompt@),
    {
        self.status_line = prompt.refresh_prompt_status_line();
        self.prompt = Some(prompt);
    }

    /// Takes the question away.
    pub fn close_prompt(&mut self)
        ensures
            final(self)@ == (AppStatusView {
                prompt: None,
                line: status_line::StatusLineView::Blank,
                ..old(self)@
            }),
    {
        self.prompt = None;
        self.clear_status_line();
    }

    /// Gives a key to the question. What is returned is the question that was answered.
    pub fn handle_prompt_key(&mut self, key: Key) -> (r: Option<PromptState>)
        requires
            old(self)@.prompt is Some,
            (old(self)@.prompt->0).wf(),
        ensures
            ({
                let s = old(self)@;
                let t = final(self)@;
                match key.code {
                    KeyCode::Esc => r is None && t == s.unasked(),
                    KeyCode::Enter => opt_prompt(r) == s.prompt && t == s.unasked(),
                    _ => {
                        &&& r is None
                        &&& t == s.asking((s.prompt->0).after_key(key))
                        &&& (t.prompt->0).wf()
                    },
                }
            }),
    {
        match key.code {
            KeyCode::Esc => {
                self.close_prompt();
                None
            },
            KeyCode::Enter => {
                let mut taken: Option<PromptState> = None;
                std::mem::swap(&mut taken, &mut self.prompt);
                self.clear_status_line();
                taken
            },
            _ => {
                let mut taken: Option<PromptState> = None;
                std::mem::swap(&mut taken, &mut self.prompt);
                let mut prompt = taken.unwrap();
                prompt.handle_key(key);
                self.open_prompt(prompt);
                None
            },
        }
    }
}

impl AppStatusView {
    /// The status with a question on its line.
    pub open spec fn asking(self, p: prompt::PromptView) -> AppStatusView {
        AppStatusView { prompt: Some(p), line: p.line(), ..self }
    }

    /// The status without a question.
    pub open spec fn unasked(self) -> AppStatusView {
        AppStatusView { prompt: None, line: status_line::StatusLineView::Blank, ..self }
    }
}

/// An error swallows the key that comes next, and that one only: the key after it gets through.
pub proof fn errors_swallow_one_key(
    s: AppStatusView,
    captures: bool,
    bound: Option<UserEvent>,
    key: Key,
)
    requires
        s.prompt is None,
        s.line is NotificationError,
    ensures
        key_outcome(s, captures, bound, key) == (
            s.with_line(status_line::StatusLineView::Blank),
            KeyStep::Done,
        ),
        bound == Some(UserEvent::Quit) && !captures ==> key_outcome(
            s.with_line(status_line::StatusLineView::Blank),
            captures,
            bound,
            key,
        ).1 == KeyStep::ToView(counted(s.prefix, UserEvent::Quit)),
{
}

/// Digits that no event is bound to are gathered into a number, a zero not at its head, and the
/// event that follows happens as often as the number says.
pub proof fn digits_are_gathered(s: AppStatusView, c: char, key: Key, e: UserEvent, next: Key)
    requires
        s.prompt is None,
        s.line is Blank,
        key.code == KeyCode::Char(c),
        '0' <= c && c <= '9',
        e != UserEvent::ForceQuit,
        e != UserEvent::Cancel,
    ensures
        ({
            let (t, step) = key_outcome(s, false, None, key);
            let (u, then) = key_outcome(t, false, Some(e), next);
            &&& step == KeyStep::Done
            &&& t.line == s.line && t.prompt is None
            &&& c != '0' || s.prefix.len() > 0 ==> t.prefix == s.prefix.push(c)
            &&& c == '0' && s.prefix.len() == 0 ==> t.prefix == s.prefix
            &&& u.prefix.len() == 0
            &&& then matches KeyStep::ToView(sent) && sent.event == e && (e.countable() ==> (
            numerals::parsed_number(t.prefix) matches Some(n) ==> n > 0 ==> sent.count == n))
        }),
{
}

/// To leave by force works wherever no question is asked and no error stands; otherwise a bound
/// event goes to the view, and cancelling takes back a number that was begun.
pub proof fn bound_keys_are_events(s: AppStatusView, e: UserEvent, key: Key)
    requires
        s.prompt is None,
        !(s.line is NotificationError),
    ensures
        ({
            let (t, step) = key_outcome(s, false, Some(e), key);
            &&& e == UserEvent::ForceQuit <==> step == KeyStep::Quit
            &&& e == UserEvent::Cancel && s.prefix.len() > 0 ==> step == KeyStep::Done
                && t.prefix.len() == 0
            &&& e != UserEvent::ForceQuit && (e != UserEvent::Cancel || s.prefix.len() == 0) ==> (
            step matches KeyStep::ToView(sent) && sent.event == e)
        }),
{
}

} // verus!
