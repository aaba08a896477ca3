//! Lines of text that are typed in.

use vstd::prelude::*;
use ratatui::crossterm::event::{Event, KeyCode as Code, KeyEvent, KeyEventKind as Kind, KeyModifiers};
use tui_input::backend::crossterm::EventHandler;
use tui_input::Input;
use crate::event::{Key, KeyCode, KeyKind};

verus! {

/// `tui_input::Input`: a row of characters with a caret in it.
#[verifier::external_type_specification]
#[verifier::external_body]
pub struct ExInput(Input);

/// The characters that an input holds.
pub uninterp spec fn typed(i: Input) -> Seq<char>;

/// How many of the characters stand before the caret.
pub uninterp spec fn caret(i: Input) -> nat;

/// The characters that were cut out last.
pub uninterp spec fn cut(i: Input) -> Seq<char>;

/// Whether more that is cut out goes to what was cut out last.
pub uninterp spec fn cutting(i: Input) -> bool;

/// Where a step over a character or a word, as the user sees them, leads from a place in a text.
pub uninterp spec fn stepped(by_word: bool, forward: bool, s: Seq<char>, at: nat) -> nat;

/// The column of the caret on the terminal, by the characters before it.
pub uninterp spec fn caret_column(before: Seq<char>) -> usize;

/// What a key asks of an input.
pub ghost enum EditRequest {
    InsertChar(char),
    GoToPrevChar,
    GoToNextChar,
    GoToPrevWord,
    GoToNextWord,
    GoToStart,
    GoToEnd,
    DeletePrevChar,
    DeleteNextChar,
    DeletePrevWord,
    DeleteNextWord,
    DeleteLine,
    DeleteTillEnd,
    Yank,
}

impl EditRequest {
    /// Whether the request deals with a word.
    pub open spec fn by_word(self) -> bool {
        match self {
            EditRequest::GoToPrevWord
            | EditRequest::GoToNextWord
            | EditRequest::DeletePrevWord
            | EditRequest::DeleteNextWord => true,
            _ => false,
        }
    }

    /// Whether the request deals with what stands behind the caret.
    pub open spec fn forward(self) -> bool {
        match self {
            EditRequest::GoToNextChar
            | EditRequest::GoToNextWord
            | EditRequest::DeleteNextChar
            | EditRequest::DeleteNextWord => true,
            _ => false,
        }
    }
}

/// What a key on its own asks of an input.
pub open spec fn plain_request(code: KeyCode) -> Option<EditRequest> {
    match code {
        KeyCode::Char(c) => Some(EditRequest::InsertChar(c)),
        KeyCode::Backspace => Some(EditRequest::DeletePrevChar),
        KeyCode::Delete => Some(EditRequest::DeleteNextChar),
        KeyCode::Left => Some(EditRequest::GoToPrevChar),
        KeyCode::Right => Some(EditRequest::GoToNextChar),
        KeyCode::Home => Some(EditRequest::GoToStart),
        KeyCode::End => Some(EditRequest::GoToEnd),
        _ => None,
    }
}

/// What a key asks of an input together with the control key.
pub open spec fn control_request(code: KeyCode) -> Option<EditRequest> {
    match code {
        KeyCode::Char('h') => Some(EditRequest::DeletePrevChar),
        KeyCode::Char('b') => Some(EditRequest::GoToPrevChar),
        KeyCode::Char('f') => Some(EditRequest::GoToNextChar),
        KeyCode::Char('a') => Some(EditRequest::GoToStart),
        KeyCode::Char('e') => Some(EditRequest::GoToEnd),
        KeyCode::Char('u') => Some(EditRequest::DeleteLine),
        KeyCode::Char('w') => Some(EditRequest::DeletePrevWord),
        KeyCode::Char('k') => Some(EditRequest::DeleteTillEnd),
        KeyCode::Char('y') => Some(EditRequest::Yank),
        KeyCode::Left => Some(EditRequest::GoToPrevWord),
        KeyCode::Right => Some(EditRequest::GoToNextWord),
        KeyCode::Delete => Some(EditRequest::DeleteNextWord),
        _ => None,
    }
}

/// What a key asks of an input together with the meta key.
pub open spec fn meta_request(code: KeyCode) -> Option<EditRequest> {
    match code {
        KeyCode::Char('b') => Some(EditRequest::GoToPrevWord),
        KeyCode::Char('f') => Some(EditRequest::GoToNextWord),
        KeyCode::Char('d') | KeyCode::Backspace => Some(EditRequest::DeletePrevWord),
        _ => None,
    }
}

/// What a key asks of an input, by the bits of the keys that were held down with it (shift is 1,
/// control 2, alt 4 and meta 32) and by what happened to it.
pub open spec fn request_of(code: KeyCode, modifiers: u8, kind: KeyKind) -> Option<EditRequest> {
    if kind is Release {
        None
    } else if modifiers == 0 || ((modifiers == 1 || modifiers == 6) && code is Char) {
        plain_request(code)
    } else if modifiers == 2 {
        control_request(code)
    } else if modifiers == 32 {
        meta_request(code)
    } else if modifiers == 4 && code is Backspace {
        Some(EditRequest::DeletePrevWord)
    } else {
        None
    }
}

/// What an input holds.
pub ghost struct InputView {
    pub typed: Seq<char>,
    pub caret: nat,
    pub cut: Seq<char>,
    pub cutting: bool,
}

pub open spec fn held(i: Input) -> InputView {
    InputView { typed: typed(i), caret: caret(i), cut: cut(i), cutting: cutting(i) }
}

/// An input in which a text was put.
pub open spec fn filled(value: Seq<char>) -> InputView {
    InputView { typed: value, caret: value.len(), cut: Seq::empty(), cutting: false }
}

impl InputView {
    /// The input with its caret at another place.
    pub open spec fn at(self, caret: nat) -> InputView {
        InputView { caret, cutting: false, ..self }
    }

    /// The input with a text at the caret.
    pub open spec fn inserted(self, s: Seq<char>) -> InputView {
        InputView {
            typed: self.typed.take(self.caret as int) + s + self.typed.skip(self.caret as int),
            caret: self.caret + s.len(),
            cutting: false,
            ..self
        }
    }

    /// The input without the characters between two places.
    pub open spec fn without(self, from: nat, to: nat) -> InputView {
        InputView {
            typed: self.typed.take(from as int) + self.typed.skip(to as int),
            caret: from,
            cutting: false,
            ..self
        }
    }

    /// The input with a text cut out: it goes before or behind what was cut out just before, else in
    /// its place.
    pub open spec fn with_cut(self, s: Seq<char>, before: bool) -> InputView {
        InputView {
            cut: if !self.cutting {
                s
            } else if before {
                s + self.cut
            } else {
                self.cut + s
            },
            cutting: true,
            ..self
        }
    }

    /// The input without the characters between two places, which are cut out.
    pub open spec fn cut_out(self, from: nat, to: nat, before: bool) -> InputView {
        let c = self.with_cut(self.typed.subrange(from as int, to as int), before);
        InputView { cut: c.cut, cutting: c.cutting, ..self.without(from, to) }
    }

    /// The input after a request, where a step over the character or word that it deals with leads
    /// to a place. A step that leads nowhere leaves all as it was.
    pub open spec fn edited_to(self, request: EditRequest, to: nat) -> InputView {
        let end = self.typed.len();
        match request {
            EditRequest::InsertChar(c) => self.inserted(seq![c]),
            EditRequest::GoToPrevChar | EditRequest::GoToNextChar => if to == self.caret {
                self
            } else {
                self.at(to)
            },
            EditRequest::GoToPrevWord | EditRequest::GoToNextWord => self.at(to),
            EditRequest::GoToStart => self.at(0),
            EditRequest::GoToEnd => self.at(end),
            EditRequest::DeletePrevChar => if to == self.caret {
                self
            } else {
                self.without(to, self.caret)
            },
            EditRequest::DeleteNextChar => if to == self.caret {
                self
            } else {
                self.without(self.caret, to)
            },
            EditRequest::DeletePrevWord => if self.caret == 0 {
                InputView { cutting: true, ..self }
            } else {
                self.cut_out(to, self.caret, true)
            },
            EditRequest::DeleteNextWord => if self.caret == end {
                InputView { cutting: true, ..self }
            } else {
                self.cut_out(self.caret, to, false)
            },
            EditRequest::DeleteLine => if end == 0 {
                InputView { cutting: true, ..self }
            } else {
                self.cut_out(0, end, self.caret == end)
            },
            EditRequest::DeleteTillEnd => self.cut_out(self.caret, end, false),
            EditRequest::Yank => self.inserted(self.cut),
        }
    }

    /// The input after a request.
    pub open spec fn edited(self, request: EditRequest) -> InputView {
        self.edited_to(
            request,
            stepped(request.by_word(), request.forward(), self.typed, self.caret),
        )
    }

    /// The input after a key.
    pub open spec fn after_key(self, key: Key) -> InputView {
        match key.request() {
            Some(request) => self.edited(request),
            None => self,
        }
    }

    /// The input with nothing typed. What was cut out is kept.
    pub open spec fn emptied(self) -> InputView {
        InputView { typed: Seq::empty(), caret: 0, ..self }
    }
}

/// `Input::default`: nothing is typed yet.
#[verifier::external_body]
pub(crate) fn empty_input() -> (r: Input)
    ensures
        typed(r) == Seq::<char>::empty(),
        caret(r) == 0,
        cut(r) == Seq::<char>::empty(),
        !cutting(r),
{
    Input::default()
}

/// `Input::with_value`: the text is typed, and the caret stands at its end. What was cut out is kept.
#[verifier::external_body]
pub(crate) fn with_value(input: Input, value: String) -> (r: Input)
    ensures
        typed(r) == value@,
        caret(r) == value@.len(),
        cut(r) == cut(input),
        cutting(r) == cutting(input),
{
    input.with_value(value)
}

/// `Input::reset`: takes the characters out. What was cut out is kept.
#[verifier::external_body]
pub(crate) fn reset(input: &mut Input)
    ensures
        typed(*final(input)) == Seq::<char>::empty(),
        caret(*final(input)) == 0,
        cut(*final(input)) == cut(*old(input)),
        cutting(*final(input)) == cutting(*old(input)),
{
    input.reset();
}

/// `Input::value`: the characters.
#[verifier::external_body]
pub(crate) fn value_of(input: &Input) -> (r: &str)
    ensures
        r@ == typed(*input),
{
    input.value()
}

/// `Input::visual_cursor`: the column of the caret, which the characters before it fix.
#[verifier::external_body]
pub(crate) fn column_of(input: &Input) -> (r: usize)
    ensures
        r == caret_column(typed(*input).take(caret(*input) as int)),
{
    input.visual_cursor()
}

/// `Input::handle_event` of `tui_input`'s backend for the terminal, given a key, the keys that were
/// held down with it, by their bits, and what happened to it: edits the characters as `request_of`
/// says that the key asks. How far a step goes is a function of the text, the place and whether it
/// goes over a character or a word.
#[verifier::external_body]
fn handle_event(input: &mut Input, code: KeyCode, modifiers: u8, kind: KeyKind)
    requires
        modifiers < 64,
        caret(*old(input)) <= typed(*old(input)).len(),
    ensures
        caret(*final(input)) <= typed(*final(input)).len(),
        held(*final(input)) == match request_of(code, modifiers, kind) {
            Some(request) => held(*old(input)).edited_to(
                request,
                stepped(
                    request.by_word(),
                    request.forward(),
                    typed(*old(input)),
                    caret(*old(input)),
                ),
            ),
            None => held(*old(input)),
        },
{
    let code = match code {
        KeyCode::Esc => Code::Esc, KeyCode::Enter => Code::Enter, KeyCode::Tab => Code::Tab,
        KeyCode::BackTab => Code::BackTab, KeyCode::Left => Code::Left, KeyCode::Right => Code::Right,
        KeyCode::Up => Code::Up, KeyCode::Down => Code::Down, KeyCode::Home => Code::Home,
        KeyCode::End => Code::End, KeyCode::Backspace => Code::Backspace, KeyCode::Delete => Code::Delete,
        KeyCode::Char(c) => Code::Char(c), KeyCode::Other => Code::Null,
    };
    let kind = match kind {
        KeyKind::Press => Kind::Press, KeyKind::Repeat => Kind::Repeat, KeyKind::Release => Kind::Release,
    };
    let modifiers = KeyModifiers::from_bits_truncate(modifiers);
    input.handle_event(&Event::Key(KeyEvent::new_with_kind(code, modifiers, kind)));
}

/// Gives a key to an input.
pub(crate) fn handle_key(input: &mut Input, key: Key)
    requires
        caret(*old(input)) <= typed(*old(input)).len(),
    ensures
        caret(*final(input)) <= typed(*final(input)).len(),
        held(*final(input)) == held(*old(input)).after_key(key),
{
    handle_event(input, key.code, key.modifiers.bits(), key.kind);
}

/// What was cut out up to the end comes back when it is put in again.
pub proof fn putting_in_undoes_cutting(i: InputView)
    requires
        i.caret <= i.typed.len(),
        !i.cutting,
    ensures
        ({
            let cut = i.edited(EditRequest::DeleteTillEnd);
            &&& cut.typed == i.typed.take(i.caret as int)
            &&& cut.edited(EditRequest::Yank).typed == i.typed
        }),
{
    let cut = i.edited(EditRequest::DeleteTillEnd);
    assert(cut.typed =~= i.typed.take(i.caret as int));
    assert(cut.edited(EditRequest::Yank).typed =~= i.typed);
}

/// A text that is typed character by character stands behind what was typed before.
pub proof fn typing_appends(i: InputView, c: char, key: Key)
    requires
        i.caret == i.typed.len(),
        key.code == KeyCode::Char(c),
        key.modifiers.numbered() <= 1,
        key.kind != KeyKind::Release,
    ensures
        i.after_key(key).typed == i.typed.push(c),
        i.after_key(key).caret == i.typed.push(c).len(),
{
    assert(i.after_key(key).typed =~= i.typed.push(c));
}

/// A key that is released changes nothing.
pub proof fn released_keys_do_nothing(i: InputView, key: Key)
    requires
        key.kind == KeyKind::Release,
    ensures
        i.after_key(key) == i,
{
}

} // verus!
