use carpem::action::{Action, ActionTarget};
use carpem::app_state::{handle_app_action, receivers, AppEffect, KeyBindings, KeyInput};
use carpem::components::{ComponentName, Id};
use carpem::keys::{parse_key_sequence, KeyCode, KeyEvent, KeyModifiers};
use carpem::task_manager::TaskManager;
use carpem::ui_navigation::{components_of, view_has_component, NavigationError, UINavigation, View};

fn key(c: char) -> KeyEvent {
    KeyEvent::new(KeyCode::Char(c), KeyModifiers::empty())
}

#[test]
fn prefix_numbers() {
    let mut keys = KeyInput::new();
    keys.record_key(key('1'));
    keys.record_key(key('2'));
    assert_eq!(keys.current_prefix, 12);
    assert!(!keys.should_reset_prefix);
    keys.record_key(key('j'));
    assert!(keys.should_reset_prefix);
    assert_eq!(keys.key_presses_since_should_reset, 1);
    assert_eq!(keys.current_prefix, 12);
    keys.record_key(key('5'));
    assert_eq!(keys.current_prefix, 12);
    keys.record_key(key('k'));
    assert_eq!(keys.current_prefix, 0);
    assert!(!keys.should_reset_prefix);
    assert_eq!(keys.last_tick_key_events.len(), 5);

    keys.record_key(key('4'));
    keys.record_key(KeyEvent::new(KeyCode::Esc, KeyModifiers::empty()));
    assert_eq!(keys.current_prefix, 0);

    let mut big = KeyInput::new();
    for _ in 0..25 {
        big.record_key(key('9'));
    }
    assert_eq!(big.current_prefix, usize::MAX);
}

#[test]
fn key_sequences_match_bindings() {
    let keymap = vec![
        (parse_key_sequence("<g><g>").unwrap(), Action::SelectFirst),
        (parse_key_sequence("g").unwrap(), Action::NextTask),
        (parse_key_sequence("<ctrl-d>").unwrap(), Action::DeleteTask),
    ];
    let mut keys = KeyInput::new();
    keys.record_key(key('x'));
    keys.record_key(key('g'));
    keys.record_key(key('g'));
    assert_eq!(keys.match_keymap(&keymap), Some(0));
    assert!(keys.last_tick_key_events.is_empty());
    keys.record_key(key('x'));
    keys.record_key(key('g'));
    assert_eq!(keys.match_keymap(&keymap), Some(1));
    keys.record_key(key('q'));
    assert_eq!(keys.match_keymap(&keymap), None);
    assert_eq!(keys.last_tick_key_events.len(), 1);
    keys.record_key(KeyEvent::new(KeyCode::Char('d'), KeyModifiers::control()));
    assert_eq!(keys.match_keymap(&keymap), Some(2));
}

#[test]
fn ticks_keep_the_last_keys() {
    let mut keys = KeyInput::new();
    for c in ['a', 'b', 'c', 'd', 'e'] {
        keys.record_key(key(c));
    }
    keys.tick();
    assert_eq!(keys.last_tick_key_events, vec![key('c'), key('d'), key('e')]);
    keys.tick();
    assert_eq!(keys.last_tick_key_events.len(), 3);
}

#[test]
fn bindings_from_text() {
    let parsed = vec![
        (ComponentName::Global, vec![("q".to_string(), Action::Quit), ("<tab>".to_string(), Action::NextView)]),
        (ComponentName::TaskList, vec![("j".to_string(), Action::NextTask)]),
    ];
    let kb = KeyBindings::from_strings(parsed).unwrap();
    let global = kb.get(ComponentName::Global).unwrap();
    assert_eq!(global.len(), 2);
    assert_eq!(global[1].0, vec![KeyEvent::new(KeyCode::Tab, KeyModifiers::empty())]);
    assert!(matches!(global[0].1, Action::Quit));
    assert!(kb.get(ComponentName::Calendar).is_none());

    let bad = vec![(ComponentName::Global, vec![("<ctrl-a".to_string(), Action::Quit)])];
    match KeyBindings::from_strings(bad) {
        Err(e) => assert!(e.starts_with("deserializing failed: syntax error in key sequence")),
        Ok(_) => panic!("expected an error"),
    }
}

#[test]
fn app_actions() {
    let mut nav = UINavigation::new().unwrap();
    let mut keys = KeyInput::new();
    let step = handle_app_action(&mut nav, &mut keys, &Action::FocusRight).unwrap();
    assert_eq!(nav.current_component_id, Id::CompName(ComponentName::TagFilter));
    assert_eq!(step.actions.len(), 1);
    assert!(matches!(step.actions[0].action, Action::Render));
    let step = handle_app_action(&mut nav, &mut keys, &Action::Resize(80, 24)).unwrap();
    assert_eq!(step.effect, Some(AppEffect::Resize(80, 24)));
    assert_eq!(handle_app_action(&mut nav, &mut keys, &Action::Quit).unwrap().effect, Some(AppEffect::Quit));
    let step = handle_app_action(&mut nav, &mut keys, &Action::QuitHelp).unwrap();
    assert!(matches!(step.actions[0].action, Action::ViewMain));
    handle_app_action(&mut nav, &mut keys, &Action::Popup(ComponentName::DateInput)).unwrap();
    assert_eq!(nav.get_popup_component(), Some(Id::CompName(ComponentName::DateInput)));
    handle_app_action(&mut nav, &mut keys, &Action::QuitPopup).unwrap();
    assert_eq!(nav.get_popup_component(), None);
    handle_app_action(&mut nav, &mut keys, &Action::NextView).unwrap();
    assert_eq!(nav.current_view, View::CalendarView);
    assert_eq!(nav.current_component().unwrap(), Id::CompName(ComponentName::Calendar));
    nav.current_view = View::PopupView;
    assert!(matches!(
        handle_app_action(&mut nav, &mut keys, &Action::FocusUp),
        Err(NavigationError::NoTarget { .. })
    ));
}

#[test]
fn action_receivers() {
    let mut nav = UINavigation::new().unwrap();
    let (all, ends) = receivers(&nav, &ActionTarget::All).unwrap();
    assert_eq!(all.len(), 9);
    assert!(!ends);
    let (some, ends) =
        receivers(&nav, &ActionTarget::Specific(vec![ComponentName::TagFilter, ComponentName::Calendar])).unwrap();
    assert_eq!(some, vec![Id::CompName(ComponentName::TagFilter), Id::CompName(ComponentName::Calendar)]);
    assert!(ends);
    let (view, _) = receivers(&nav, &ActionTarget::View(View::CalendarView)).unwrap();
    assert_eq!(view, components_of(View::CalendarView));
    let (active, _) = receivers(&nav, &ActionTarget::Active).unwrap();
    assert_eq!(active, vec![Id::CompName(ComponentName::TaskList)]);
    assert!(receivers(&nav, &ActionTarget::App).unwrap().0.is_empty());
    nav.current_component_id = Id::CompName(ComponentName::Calendar);
    assert!(matches!(nav.current_component(), Err(NavigationError::MissingComponent { .. })));
    assert!(receivers(&nav, &ActionTarget::Active).is_err());
    assert!(view_has_component(View::TaskView, Id::CompName(ComponentName::CurrentTaskInfo)));
    assert!(!view_has_component(View::PopupView, Id::Empty));
}

#[test]
fn tag_filter_in_place() {
    let mut manager = TaskManager::new();
    manager.get_tag_filter_mut().push(4);
    manager.get_tag_filter_mut().push(2);
    assert_eq!(manager.get_tag_filter(), &vec![4, 2]);
}
