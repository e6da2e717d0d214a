use text_editor::key::Key;
use text_editor::open_files_data::{FileError, ReadOutcome};
use text_editor::session::{AppReturn, EventOutcome, IoEvent, KeyOutcome, Session};
use text_editor::state::ScrollError;

fn ready_session() -> Session {
    let mut s = Session::new();
    s.initialized();
    s
}

#[test]
fn backspace_on_empty_text_keeps_it_empty() {
    let mut s = ready_session();
    s.state_mut().toggle_write_mode(true);
    assert_eq!(s.do_action(Key::Backspace), KeyOutcome::Continue);
    assert_eq!(s.state().get_text(), "");
    assert_eq!(s.do_action(Key::Backspace), KeyOutcome::Continue);
    assert_eq!(s.state().get_text(), "");
}

#[test]
fn write_mode_inserts_and_removes_characters() {
    let mut s = ready_session();
    s.state_mut().toggle_write_mode(true);
    for k in [Key::Char('h'), Key::Char('i'), Key::Space, Key::Enter, Key::Char('q')] {
        assert_eq!(s.do_action(k), KeyOutcome::Continue);
    }
    assert_eq!(s.state().get_text(), "hi \nq");
    assert_eq!(s.attempt_write(Key::Backspace), Some(AppReturn::Continue));
    assert_eq!(s.state().get_text(), "hi \n");
    assert_eq!(s.attempt_write(Key::Down), None);
    assert_eq!(s.do_action(Key::Ctrl('w')), KeyOutcome::Request(IoEvent::ToggleWriteMode(false)));
}

#[test]
fn keys_resolve_to_requests() {
    let mut s = ready_session();
    assert_eq!(s.do_action(Key::Char('q')), KeyOutcome::Exit);
    assert_eq!(s.do_action(Key::Ctrl('c')), KeyOutcome::Request(IoEvent::CloseFile));
    assert_eq!(s.do_action(Key::Char('w')), KeyOutcome::Request(IoEvent::ToggleWriteMode(true)));
    assert_eq!(s.do_action(Key::Ctrl('o')), KeyOutcome::Request(IoEvent::OpenFile));
    assert_eq!(s.do_action(Key::Ctrl('s')), KeyOutcome::Request(IoEvent::SaveFile));
    assert_eq!(s.do_action(Key::Char('n')), KeyOutcome::Request(IoEvent::NextFile));
    assert_eq!(s.do_action(Key::Char('p')), KeyOutcome::Request(IoEvent::PreviousFile));
    assert_eq!(s.do_action(Key::Ctrl('x')), KeyOutcome::Continue);
    assert_eq!(s.do_action(Key::Down), KeyOutcome::Request(IoEvent::ScrollDown));
    assert_eq!(s.do_action(Key::Up), KeyOutcome::Request(IoEvent::ScrollUp));
    assert_eq!(s.do_action(Key::Left), KeyOutcome::Request(IoEvent::ScrollLeft));
    assert_eq!(s.do_action(Key::Right), KeyOutcome::Request(IoEvent::ScrollRight));
    assert_eq!(s.do_action(Key::Alt('z')), KeyOutcome::Continue);
    assert_eq!(s.state().get_text(), " (input mode)");
}

#[test]
fn only_quit_before_the_session_is_ready() {
    let mut s = Session::new();
    assert_eq!(s.actions().actions().len(), 1);
    assert_eq!(s.do_action(Key::Char('n')), KeyOutcome::Continue);
    assert_eq!(s.do_action(Key::Char('q')), KeyOutcome::Exit);
    s.initialized();
    assert_eq!(s.actions().actions().len(), 12);
    assert!(s.state().is_initialized());
}

#[test]
fn loading_flag_follows_the_worker() {
    let mut s = Session::new();
    assert!(!s.is_loading());
    s.loading();
    assert!(s.is_loading());
    s.loaded();
    assert!(!s.is_loading());
}

#[test]
fn worker_events_change_the_session() {
    let mut s = Session::new();
    assert_eq!(s.apply_event(IoEvent::ScrollDown), EventOutcome::Done);
    assert_eq!(s.apply_event(IoEvent::CloseFile), EventOutcome::Done);
    assert!(!s.state().is_initialized());
    assert_eq!(s.apply_event(IoEvent::Initialize), EventOutcome::Done);
    assert_eq!(s.actions().actions().len(), 12);
    s.state_mut().open_file("A", ReadOutcome::Text("ab\ncd\nef".to_string())).unwrap();
    assert_eq!(s.apply_event(IoEvent::Initialize), EventOutcome::Done);
    assert_eq!(s.state().get_path(), "A");
    assert_eq!(s.apply_event(IoEvent::ToggleWriteMode(true)), EventOutcome::Done);
    assert!(s.state().is_write_mode());
    assert_eq!(s.apply_event(IoEvent::ScrollDown), EventOutcome::Done);
    assert_eq!(s.state().get_scroll_offset(), (0, 1));
    assert_eq!(s.apply_event(IoEvent::ScrollRight), EventOutcome::Done);
    assert_eq!(s.state().get_scroll_offset(), (1, 1));
    assert_eq!(s.apply_event(IoEvent::ScrollLeft), EventOutcome::Done);
    assert_eq!(
        s.apply_event(IoEvent::ScrollLeft),
        EventOutcome::ScrollRefused(ScrollError::PastStartOfLine)
    );
    assert_eq!(s.apply_event(IoEvent::ScrollUp), EventOutcome::Done);
    assert_eq!(s.apply_event(IoEvent::ScrollUp), EventOutcome::ScrollRefused(ScrollError::PastStart));
    assert_eq!(s.apply_event(IoEvent::OpenFile), EventOutcome::OpenRequested);
    assert_eq!(s.apply_event(IoEvent::SaveFile), EventOutcome::SaveRequested);
    s.state_mut().open_file("B", ReadOutcome::Text("x".to_string())).unwrap();
    s.apply_event(IoEvent::ScrollDown);
    assert_eq!(s.apply_event(IoEvent::PreviousFile), EventOutcome::Done);
    assert_eq!(s.state().get_path(), "A");
    assert_eq!(s.state().get_scroll_offset(), (0, 0));
    assert_eq!(s.apply_event(IoEvent::NextFile), EventOutcome::Done);
    assert_eq!(s.state().get_path(), "B");
    assert_eq!(s.apply_event(IoEvent::CloseFile), EventOutcome::Done);
    assert_eq!(s.state().get_path(), "A");
    s.apply_event(IoEvent::CloseFile);
    assert_eq!(s.apply_event(IoEvent::CloseFile), EventOutcome::CloseFailed(FileError::NothingToClose));
}

#[test]
fn editing_keeps_write_mode_and_view() {
    let mut s = ready_session();
    s.state_mut().open_file("A", ReadOutcome::Text("ab\ncd".to_string())).unwrap();
    s.state_mut().toggle_write_mode(true);
    s.state_mut().scroll_vertical(1).unwrap();
    assert_eq!(s.do_action(Key::Char('x')), KeyOutcome::Continue);
    assert_eq!(s.state().get_text(), "ab\ncdx");
    assert!(s.state().is_write_mode());
    assert_eq!(s.state().get_scroll_offset(), (0, 1));
    assert_eq!(s.state().get_path(), "A");
}

#[test]
fn a_second_initialization_keeps_the_session() {
    let mut s = ready_session();
    s.state_mut().open_file("A", ReadOutcome::Text("x".to_string())).unwrap();
    s.initialized();
    assert_eq!(s.state().get_path(), "A");
}
