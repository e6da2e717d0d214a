use vstd::prelude::*;

use crate::actions::{all_actions, conflict_free, Action, Actions};
use crate::key::Key;
use crate::open_files_data::{next_index, previous_index, FileError};
use crate::scroll::Overshoot;
use crate::state::{AppState, ScrollError};
use crate::text::{pop_char, push_char};

verus! {

/// Whether the editor goes on after a key.
#[derive(Clone, Copy, Debug, PartialEq, Eq, Structural)]
pub enum AppReturn {
    Exit,
    Continue,
}

/// Work that the session hands to the background worker.
#[derive(Clone, Copy, Debug, PartialEq, Eq, Structural)]
pub enum IoEvent {
    /// Make the session ready.
    Initialize,
    /// Turn write mode on or off.
    ToggleWriteMode(bool),
    /// Open the file whose path the clipboard holds.
    OpenFile,
    /// Save the selected file.
    SaveFile,
    /// Select the next file.
    NextFile,
    /// Select the previous file.
    PreviousFile,
    /// Close the selected file.
    CloseFile,
    ScrollDown,
    ScrollUp,
    ScrollLeft,
    ScrollRight,
}

/// What a key press asks of the caller.
#[derive(Clone, Copy, Debug, PartialEq, Eq, Structural)]
pub enum KeyOutcome {
    /// Leave the editor.
    Exit,
    /// Nothing more to do.
    Continue,
    /// Hand this work to the background worker, then go on.
    Request(IoEvent),
}

/// What applying a worker event gave.
#[derive(Clone, Debug, PartialEq, Eq)]
pub enum EventOutcome {
    /// The event was applied.
    Done,
    /// The scroll was refused; the view did not move.
    ScrollRefused(ScrollError),
    /// Closing failed; nothing changed.
    CloseFailed(FileError),
    /// Opening needs a path from the clipboard and the file's text:
    /// call `AppState::open_file` with them.
    OpenRequested,
    /// Saving needs a file write: call `AppState::save_file`, write what it
    /// gives, and on success report it with `AppState::record_saved`.
    SaveRequested,
}

/// The scroll error that a refused step reports.
pub open spec fn refusal(vertical: bool, e: Overshoot) -> ScrollError {
    match (vertical, e) {
        (true, Overshoot::PastEnd) => ScrollError::PastEnd,
        (true, Overshoot::PastStart) => ScrollError::PastStart,
        (false, Overshoot::PastEnd) => ScrollError::PastEndOfLine,
        (false, Overshoot::PastStart) => ScrollError::PastStartOfLine,
    }
}

/// `s1` and `r` are what scrolling `s0` by `delta` gives.
pub open spec fn scroll_effect(s0: AppState, s1: AppState, r: EventOutcome, vertical: bool, delta: int) -> bool {
    match s0 {
        AppState::Init => r == EventOutcome::Done && s1 == s0,
        AppState::Initialized { .. } => {
            let (x, y) = s0.offset();
            let outcome = if vertical {
                s0.vertical_outcome(delta)
            } else {
                s0.horizontal_outcome(delta)
            };
            &&& s1.files() == s0.files()
            &&& s1.writing() == s0.writing()
            &&& s1 is Initialized
            &&& match outcome {
                Ok(o) => r == EventOutcome::Done && s1.offset() == if vertical {
                    (x, o as u16)
                } else {
                    (o as u16, y)
                },
                Err(e) => r == EventOutcome::ScrollRefused(refusal(vertical, e)) && s1.offset() == s0.offset(),
            }
        },
    }
}

/// `s1` is `s0` with the next (or previous) file selected and the view
/// back at the start.
pub open spec fn selection_effect(s0: AppState, s1: AppState, forward: bool) -> bool {
    match s0 {
        AppState::Init => s1 == s0,
        AppState::Initialized { .. } => {
            let f0 = s0.files().unwrap();
            let f1 = s1.files().unwrap();
            let n = f0.contents().len() as int;
            &&& s1 is Initialized
            &&& s1.writing() == s0.writing()
            &&& s1.offset() == (0u16, 0u16)
            &&& f1.paths() == f0.paths()
            &&& f1.contents() == f0.contents()
            &&& f1.selected() == if forward {
                next_index(f0.selected(), n)
            } else {
                previous_index(f0.selected(), n)
            }
        },
    }
}

/// `s1` and `r` are what closing the selected file of `s0` gives: the view
/// goes back to the start when a file was closed.
pub open spec fn close_effect(s0: AppState, s1: AppState, r: EventOutcome) -> bool {
    match s0 {
        AppState::Init => r == EventOutcome::Done && s1 == s0,
        AppState::Initialized { .. } => {
            let f0 = s0.files().unwrap();
            let f1 = s1.files().unwrap();
            let i = f0.selected();
            &&& s1 is Initialized
            &&& s1.writing() == s0.writing()
            &&& f0.contents().len() == 0 ==> r == EventOutcome::CloseFailed(FileError::NothingToClose) && f1 == f0
                && s1.offset() == s0.offset()
            &&& f0.contents().len() > 0 ==> {
                &&& r == EventOutcome::Done
                &&& s1.offset() == (0u16, 0u16)
                &&& f1.contents() == f0.contents().remove(i)
                &&& f1.paths() == if f0.selected_has_path() {
                    f0.paths().remove(i)
                } else {
                    f0.paths()
                }
                &&& f1.selected() == previous_index(i, f1.contents().len() as int)
            }
        },
    }
}

/// The work that an action asks for; `Quit` asks for none.
pub open spec fn event_for(a: Action) -> Option<IoEvent> {
    match a {
        Action::Quit => None,
        Action::BeginWriteMode => Some(IoEvent::ToggleWriteMode(true)),
        Action::EndWriteMode => Some(IoEvent::ToggleWriteMode(false)),
        Action::OpenFile => Some(IoEvent::OpenFile),
        Action::SaveFile => Some(IoEvent::SaveFile),
        Action::NextFile => Some(IoEvent::NextFile),
        Action::PreviousFile => Some(IoEvent::PreviousFile),
        Action::CloseFile => Some(IoEvent::CloseFile),
        Action::ScrollDown => Some(IoEvent::ScrollDown),
        Action::ScrollUp => Some(IoEvent::ScrollUp),
        Action::ScrollLeft => Some(IoEvent::ScrollLeft),
        Action::ScrollRight => Some(IoEvent::ScrollRight),
    }
}

/// The text that a key makes of `text` in write mode, or `None` for a key
/// that does not edit.
pub open spec fn edited(text: Seq<char>, key: Key) -> Option<Seq<char>> {
    match key {
        Key::Backspace => Some(
            if text.len() > 0 {
                text.drop_last()
            } else {
                text
            },
        ),
        Key::Enter => Some(text.push('\n')),
        Key::Space => Some(text.push(' ')),
        Key::Char(c) => Some(text.push(c)),
        _ => None,
    }
}

/// The place of an action in the full list.
spec fn rank(a: Action) -> int {
    match a {
        Action::Quit => 0,
        Action::BeginWriteMode => 1,
        Action::EndWriteMode => 2,
        Action::OpenFile => 3,
        Action::SaveFile => 4,
        Action::NextFile => 5,
        Action::PreviousFile => 6,
        Action::CloseFile => 7,
        Action::ScrollDown => 8,
        Action::ScrollUp => 9,
        Action::ScrollLeft => 10,
        Action::ScrollRight => 11,
    }
}

/// No key chord triggers two actions of the full list.
pub proof fn lemma_all_actions_conflict_free()
    ensures
        conflict_free(all_actions()),
{
    let s = all_actions();
    assert(rank(s[0]) == 0 && rank(s[1]) == 1 && rank(s[2]) == 2 && rank(s[3]) == 3);
    assert(rank(s[4]) == 4 && rank(s[5]) == 5 && rank(s[6]) == 6 && rank(s[7]) == 7);
    assert(rank(s[8]) == 8 && rank(s[9]) == 9 && rank(s[10]) == 10 && rank(s[11]) == 11);
    assert forall|i: int, j: int, key: Key|
        0 <= i < j < s.len() && #[trigger] s[i].triggered_by(key) implies !#[trigger] s[j].triggered_by(
            key,
        ) by {
        s[i].lemma_keys_owned(key);
        s[j].lemma_keys_owned(key);
        assert(rank(s[i]) == i && rank(s[j]) == j);
    }
}

/// The editor's state apart from the channel to its background worker:
/// the contextual actions, whether work is pending, and the session.
pub struct Session {
    actions: Actions,
    is_loading: bool,
    state: AppState,
}

impl Session {
    pub closed spec fn spec_actions(&self) -> Actions {
        self.actions
    }

    pub closed spec fn spec_loading(&self) -> bool {
        self.is_loading
    }

    pub closed spec fn spec_state(&self) -> AppState {
        self.state
    }

    pub open spec fn wf(&self) -> bool {
        &&& self.spec_actions().wf()
        &&& self.spec_state().wf()
    }

    /// A session that is not ready, where only `Quit` is available.
    pub fn new() -> (r: Self)
        ensures
            r.wf(),
            r.spec_actions()@ == seq![Action::Quit],
            !r.spec_loading(),
            r.spec_state() is Init,
    {
        // A single action cannot conflict with another, so this is `Ok`.
        let actions = match Actions::new(vec![Action::Quit]) {
            Ok(a) => a,
            Err(_) => {
                proof {
                    assert(conflict_free(seq![Action::Quit]));
                }
                Actions::default()
            },
        };
        Session { actions, is_loading: false, state: AppState::default() }
    }

    /// Makes the session ready: every action becomes available. A session
    /// that is ready already stays as it is.
    pub fn initialized(&mut self)
        requires
            old(self).wf(),
        ensures
            final(self).wf(),
            final(self).spec_loading() == old(self).spec_loading(),
            old(self).spec_state() is Initialized ==> *final(self) == *old(self),
            old(self).spec_state() is Init ==> {
                &&& final(self).spec_actions()@ == all_actions()
                &&& final(self).spec_state() matches AppState::Initialized { write_mode, scroll_offset, files_data }
                    && !write_mode && scroll_offset == (0u16, 0u16) && files_data.contents().len() == 0
                    && files_data.paths().len() == 0
            },
    {
        if self.state.is_initialized() {
            return;
        }
        proof {
            lemma_all_actions_conflict_free();
        }
        // The full list is conflict-free (proved above), so this is `Ok`.
        let values = Action::values();
        if let Ok(a) = Actions::new(values) {
            self.actions = a;
        }
        self.state = AppState::initialized();
    }

    pub fn actions(&self) -> (r: &Actions)
        ensures
            *r == self.spec_actions(),
    {
        &self.actions
    }

    pub fn state(&self) -> (r: &AppState)
        ensures
            *r == self.spec_state(),
    {
        &self.state
    }

    /// The session, for the background worker to change.
    pub fn state_mut(&mut self) -> (r: &mut AppState)
        ensures
            *r == old(self).spec_state(),
            final(self).spec_state() == *final(r),
            final(self).spec_actions() == old(self).spec_actions(),
            final(self).spec_loading() == old(self).spec_loading(),
    {
        &mut self.state
    }

    pub fn is_loading(&self) -> (r: bool)
        ensures
            r == self.spec_loading(),
    {
        self.is_loading
    }

    /// Work was handed to the background worker.
    pub fn loading(&mut self)
        ensures
            final(self).spec_loading(),
            final(self).spec_actions() == old(self).spec_actions(),
            final(self).spec_state() == old(self).spec_state(),
    {
        self.is_loading = true;
    }

    /// The background worker is done.
    pub fn loaded(&mut self)
        ensures
            !final(self).spec_loading(),
            final(self).spec_actions() == old(self).spec_actions(),
            final(self).spec_state() == old(self).spec_state(),
    {
        self.is_loading = false;
    }

    /// Applies a worker event to the session. Opening and saving need
    /// outside work: for them the session is left as it is and the outcome
    /// says what to do.
    pub fn apply_event(&mut self, event: IoEvent) -> (r: EventOutcome)
        requires
            old(self).wf(),
        ensures
            final(self).wf(),
            final(self).spec_loading() == old(self).spec_loading(),
            event != IoEvent::Initialize ==> final(self).spec_actions() == old(self).spec_actions(),
            ({
                let s0 = old(self).spec_state();
                let s1 = final(self).spec_state();
                match event {
                    IoEvent::Initialize => {
                        &&& r == EventOutcome::Done
                        &&& s0 is Initialized ==> *final(self) == *old(self)
                        &&& s0 is Init ==> {
                            &&& final(self).spec_actions()@ == all_actions()
                            &&& s1 matches AppState::Initialized { write_mode, scroll_offset, files_data }
                                && !write_mode && scroll_offset == (0u16, 0u16) && files_data.contents().len()
                                == 0 && files_data.paths().len() == 0
                        }
                    },
                    IoEvent::ToggleWriteMode(b) => r == EventOutcome::Done && s1 == match s0 {
                        AppState::Init => s0,
                        AppState::Initialized { scroll_offset, files_data, .. } => AppState::Initialized {
                            write_mode: b,
                            scroll_offset,
                            files_data,
                        },
                    },
                    IoEvent::OpenFile => r == EventOutcome::OpenRequested && s1 == s0,
                    IoEvent::SaveFile => r == EventOutcome::SaveRequested && s1 == s0,
                    IoEvent::NextFile => r == EventOutcome::Done && selection_effect(s0, s1, true),
                    IoEvent::PreviousFile => r == EventOutcome::Done && selection_effect(s0, s1, false),
                    IoEvent::CloseFile => close_effect(s0, s1, r),
                    IoEvent::ScrollDown => scroll_effect(s0, s1, r, true, 1),
                    IoEvent::ScrollUp => scroll_effect(s0, s1, r, true, -1),
                    IoEvent::ScrollLeft => scroll_effect(s0, s1, r, false, -1),
                    IoEvent::ScrollRight => scroll_effect(s0, s1, r, false, 1),
                }
            }),
    {
        match event {
            IoEvent::Initialize => {
                self.initialized();
                EventOutcome::Done
            },
            IoEvent::ToggleWriteMode(b) => {
                self.state.toggle_write_mode(b);
                EventOutcome::Done
            },
            IoEvent::OpenFile => EventOutcome::OpenRequested,
            IoEvent::SaveFile => EventOutcome::SaveRequested,
            IoEvent::NextFile => {
                self.state.next_file();
                EventOutcome::Done
            },
            IoEvent::PreviousFile => {
                self.state.previous_file();
                EventOutcome::Done
            },
            IoEvent::CloseFile => match self.state.close_file() {
                Ok(()) => EventOutcome::Done,
                Err(e) => EventOutcome::CloseFailed(e),
            },
            IoEvent::ScrollDown => Session::scroll_result(self.state.scroll_vertical(1)),
            IoEvent::ScrollUp => Session::scroll_result(self.state.scroll_vertical(-1)),
            IoEvent::ScrollLeft => Session::scroll_result(self.state.scroll_horizontal(-1)),
            IoEvent::ScrollRight => Session::scroll_result(self.state.scroll_horizontal(1)),
        }
    }

    fn scroll_result(r: Result<(), ScrollError>) -> (o: EventOutcome)
        ensures
            r is Ok ==> o == EventOutcome::Done,
            r matches Err(e) ==> o == EventOutcome::ScrollRefused(e),
    {
        match r {
            Ok(()) => EventOutcome::Done,
            Err(e) => EventOutcome::ScrollRefused(e),
        }
    }

    /// In write mode, applies an editing key to the selected text.
    /// Gives `None`, changing nothing, outside write mode or for a key that
    /// does not edit.
    pub fn attempt_write(&mut self, key: Key) -> (r: Option<AppReturn>)
        requires
            old(self).wf(),
        ensures
            final(self).wf(),
            final(self).spec_actions() == old(self).spec_actions(),
            final(self).spec_loading() == old(self).spec_loading(),
            old(self).spec_state().writing() && edited(old(self).spec_state().text(), key) is Some ==> {
                let f1 = final(self).spec_state().files().unwrap();
                &&& r == Some(AppReturn::Continue)
                &&& final(self).spec_state().writing()
                &&& final(self).spec_state().offset() == old(self).spec_state().offset()
                &&& final(self).spec_state().files() is Some
                &&& f1.paths() == old(self).spec_state().files().unwrap().paths()
                &&& final(self).spec_state().text() == edited(old(self).spec_state().text(), key).unwrap()
            },
            !(old(self).spec_state().writing() && edited(old(self).spec_state().text(), key) is Some) ==> r
                is None && *final(self) == *old(self),
    {
        if !self.state.is_write_mode() {
            return None;
        }
        let mut text = self.state.get_text();
        match key {
            Key::Backspace => {
                pop_char(&mut text);
            },
            Key::Enter => push_char(&mut text, '\n'),
            Key::Space => push_char(&mut text, ' '),
            Key::Char(c) => push_char(&mut text, c),
            _ => {
                return None;
            },
        }
        self.state.replace_text(text.as_str());
        Some(AppReturn::Continue)
    }

    /// Handles one key: edits the text in write mode, else looks the key up
    /// among the contextual actions and says what the action asks for.
    pub fn do_action(&mut self, key: Key) -> (r: KeyOutcome)
        requires
            old(self).wf(),
        ensures
            final(self).wf(),
            final(self).spec_actions() == old(self).spec_actions(),
            final(self).spec_loading() == old(self).spec_loading(),
            old(self).spec_state().writing() && edited(old(self).spec_state().text(), key) is Some ==> {
                let f1 = final(self).spec_state().files().unwrap();
                &&& r == KeyOutcome::Continue
                &&& final(self).spec_state().writing()
                &&& final(self).spec_state().offset() == old(self).spec_state().offset()
                &&& final(self).spec_state().files() is Some
                &&& f1.paths() == old(self).spec_state().files().unwrap().paths()
                &&& final(self).spec_state().text() == edited(old(self).spec_state().text(), key).unwrap()
            },
            !(old(self).spec_state().writing() && edited(old(self).spec_state().text(), key) is Some) ==> {
                let acts = old(self).spec_actions()@;
                &&& *final(self) == *old(self)
                &&& (forall|i: int| 0 <= i < acts.len() ==> !(#[trigger] acts[i]).triggered_by(key))
                    ==> r == KeyOutcome::Continue
                &&& forall|i: int|
                    0 <= i < acts.len() && (#[trigger] acts[i]).triggered_by(key) ==> r == match event_for(
                        acts[i],
                    ) {
                        None => KeyOutcome::Exit,
                        Some(e) => KeyOutcome::Request(e),
                    }
            },
    {
        if let Some(_) = self.attempt_write(key) {
            return KeyOutcome::Continue;
        }
        match self.actions.find(key) {
            None => KeyOutcome::Continue,
            Some(action) => {
                proof {
                    let acts = self.spec_actions()@;
                    let i = choose|i: int|
                        0 <= i < acts.len() && acts[i] == *action && action.triggered_by(key);
                    assert forall|j: int|
                        0 <= j < acts.len() && (#[trigger] acts[j]).triggered_by(key) implies acts[j]
                        == *action by {
                        if j < i {
                            assert(!acts[j].triggered_by(key));
                        } else if i < j {
                            assert(acts[i].triggered_by(key));
                        }
                    }
                }
                match action {
                    Action::Quit => KeyOutcome::Exit,
                    Action::BeginWriteMode => KeyOutcome::Request(IoEvent::ToggleWriteMode(true)),
                    Action::EndWriteMode => KeyOutcome::Request(IoEvent::ToggleWriteMode(false)),
                    Action::OpenFile => KeyOutcome::Request(IoEvent::OpenFile),
                    Action::SaveFile => KeyOutcome::Request(IoEvent::SaveFile),
                    Action::NextFile => KeyOutcome::Request(IoEvent::NextFile),
                    Action::PreviousFile => KeyOutcome::Request(IoEvent::PreviousFile),
                    Action::CloseFile => KeyOutcome::Request(IoEvent::CloseFile),
                    Action::ScrollDown => KeyOutcome::Request(IoEvent::ScrollDown),
                    Action::ScrollUp => KeyOutcome::Request(IoEvent::ScrollUp),
                    Action::ScrollLeft => KeyOutcome::Request(IoEvent::ScrollLeft),
                    Action::ScrollRight => KeyOutcome::Request(IoEvent::ScrollRight),
                }
            },
        }
    }
}

} // verus!
