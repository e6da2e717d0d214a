use text_editor::actions::{conflicts_message, Action, Actions};
use text_editor::key::Key;

fn every_action() -> Vec<Action> {
    vec![
        Action::Quit,
        Action::BeginWriteMode,
        Action::EndWriteMode,
        Action::OpenFile,
        Action::SaveFile,
        Action::NextFile,
        Action::PreviousFile,
        Action::CloseFile,
        Action::ScrollDown,
        Action::ScrollUp,
        Action::ScrollLeft,
        Action::ScrollRight,
    ]
}

#[test]
fn should_find_action_by_key() {
    let actions: Actions =
        Actions::new(vec![Action::Quit, Action::BeginWriteMode, Action::EndWriteMode]).unwrap();
    let result = actions.find(Key::Ctrl('c'));
    assert_eq!(result, None);
}

#[test]
fn should_find_action_by_key_not_found() {
    let actions: Actions =
        Actions::new(vec![Action::Quit, Action::BeginWriteMode, Action::EndWriteMode]).unwrap();
    let result = actions.find(Key::Alt('w'));
    assert_eq!(result, None);
}

#[test]
fn should_create_actions_from_vec() {
    let _actions: Actions = Actions::new(every_action()).unwrap();
}

#[test]
fn find_only_looks_among_the_registered_actions() {
    let actions = Actions::new(vec![Action::Quit]).unwrap();
    assert_eq!(actions.find(Key::Char('n')), None);
    assert_eq!(actions.find(Key::Char('q')), Some(&Action::Quit));
}

#[test]
fn found_action_is_triggered_by_the_key() {
    let actions = Actions::new(every_action()).unwrap();
    for key in [Key::Char('w'), Key::Ctrl('s'), Key::Down, Key::Left, Key::Char('p')] {
        let found = actions.find(key).unwrap();
        assert!(found.keys().contains(&key));
    }
    assert_eq!(actions.find(Key::Ctrl('c')), Some(&Action::CloseFile));
    assert_eq!(actions.find(Key::Esc), None);
}

#[test]
fn shared_key_chord_is_refused_with_every_conflict() {
    let report = Actions::new(vec![Action::Quit, Action::NextFile, Action::Quit]).unwrap_err();
    assert_eq!(report.len(), 1);
    assert_eq!(report[0].key, Key::Char('q'));
    assert_eq!(report[0].actions, vec![Action::Quit, Action::Quit]);
    assert_eq!(conflicts_message(&report), "Conflict key <q> with actions Quit, Quit");

    let report = Actions::new(vec![
        Action::CloseFile,
        Action::Quit,
        Action::ScrollUp,
        Action::CloseFile,
        Action::Quit,
    ])
    .unwrap_err();
    assert_eq!(report.len(), 2);
    assert_eq!(report[0].key, Key::Ctrl('c'));
    assert_eq!(report[0].actions, vec![Action::CloseFile, Action::CloseFile]);
    assert_eq!(report[1].key, Key::Char('q'));
    assert_eq!(report[1].actions, vec![Action::Quit, Action::Quit]);
    assert_eq!(
        conflicts_message(&report),
        "Conflict key <Ctrl+c> with actions Close File, Close File; Conflict key <q> with actions Quit, Quit"
    );
}

#[test]
fn actions_are_kept_in_order() {
    let list = vec![Action::ScrollUp, Action::Quit, Action::OpenFile];
    let actions = Actions::new(list.clone()).unwrap();
    assert_eq!(actions.actions(), list.as_slice());
}

#[test]
fn all_actions_are_listed_once() {
    assert_eq!(Action::values(), every_action());
    assert_eq!(Action::iterator().collect::<Vec<_>>(), every_action());
}

#[test]
fn each_action_has_its_key_chord() {
    assert_eq!(Action::Quit.keys(), vec![Key::Char('q')]);
    assert_eq!(Action::CloseFile.keys(), vec![Key::Ctrl('c')]);
    assert_eq!(Action::ScrollRight.keys(), vec![Key::Right]);
}

#[test]
fn actions_and_keys_have_display_names() {
    assert_eq!(Action::OpenFile.name(), "Open Copied File");
    assert_eq!(Action::ScrollDown.name(), "Scroll Down");
    assert_eq!(Key::Ctrl('c').label(), "<Ctrl+c>");
    assert_eq!(Key::Char('q').label(), "<q>");
    assert_eq!(Key::Char(' ').label(), "<Space>");
    assert_eq!(Key::Alt('x').label(), "<Alt+x>");
    assert_eq!(Key::Down.label(), "<Down>");
    assert_eq!(Key::F(12).label(), "<F12>");
    assert_eq!(Key::F(7).label(), "<F7>");
    assert_eq!(Key::F(255).label(), "<F255>");
}

#[test]
fn default_registry_is_empty() {
    let actions = Actions::default();
    assert!(actions.actions().is_empty());
    assert_eq!(actions.find(Key::Char('q')), None);
}
