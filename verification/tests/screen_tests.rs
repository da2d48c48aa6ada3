use mls_engine::screen::{AppScreen, InputMode, Key, UiAction, UiState};

#[test]
fn normal_mode_switches_modes_and_screens() {
    let mut ui = UiState::new();
    assert!(matches!(ui.on_key(Key::Char('c'), false), UiAction::Nothing));
    assert_eq!(ui.input_mode, InputMode::Command);
    assert!(matches!(ui.on_key(Key::Esc, false), UiAction::Nothing));
    assert_eq!(ui.input_mode, InputMode::Normal);

    // Message mode needs an active group.
    assert!(matches!(
        ui.on_key(Key::Char('m'), false),
        UiAction::RequireActiveGroup
    ));
    assert_eq!(ui.input_mode, InputMode::Normal);
    assert!(matches!(ui.on_key(Key::Char('m'), true), UiAction::Nothing));
    assert_eq!(ui.input_mode, InputMode::Message);
    ui.on_key(Key::Esc, true);

    assert!(matches!(ui.on_key(Key::Char('s'), false), UiAction::Nothing));
    assert_eq!(ui.screen, AppScreen::Settings);
    assert_eq!(ui.input_mode, InputMode::Settings);
}

#[test]
fn command_entry_collects_the_line() {
    let mut ui = UiState::new();
    ui.on_key(Key::Char('c'), false);
    for c in "create team".chars() {
        assert!(matches!(ui.on_key(Key::Char(c), false), UiAction::Nothing));
    }
    // A typo corrected with backspace.
    ui.on_key(Key::Char('x'), false);
    ui.on_key(Key::Backspace, false);
    match ui.on_key(Key::Enter, false) {
        UiAction::ExecuteCommand(line) => {
            let text: String = line.into_iter().collect();
            assert_eq!(text, "create team");
        }
        _ => panic!("expected a command submission"),
    }
    assert_eq!(ui.input_mode, InputMode::Normal);
    assert!(ui.input.is_empty());
}

#[test]
fn message_entry_submits_to_send() {
    let mut ui = UiState::new();
    ui.on_key(Key::Char('m'), true);
    for c in "hi".chars() {
        ui.on_key(Key::Char(c), true);
    }
    match ui.on_key(Key::Enter, true) {
        UiAction::SendMessage(line) => {
            let text: String = line.into_iter().collect();
            assert_eq!(text, "hi");
        }
        _ => panic!("expected a message submission"),
    }
}

#[test]
fn quit_and_help_keys() {
    let mut ui = UiState::new();
    assert!(matches!(ui.on_key(Key::Char('h'), false), UiAction::Nothing));
    assert_eq!(ui.screen, AppScreen::Help);
    ui.dismiss_help();
    assert_eq!(ui.screen, AppScreen::Main);
    assert!(matches!(ui.on_key(Key::Char('q'), false), UiAction::Quit));
}

#[test]
fn settings_mode_edits_and_saves() {
    let mut ui = UiState::new();
    ui.on_key(Key::Char('s'), false);
    assert_eq!(ui.settings_field, 0);
    assert!(matches!(ui.on_key(Key::Tab, false), UiAction::Nothing));
    assert_eq!(ui.settings_field, 1);
    assert!(matches!(
        ui.on_key(Key::Char('a'), false),
        UiAction::SettingsChar('a')
    ));
    assert!(matches!(
        ui.on_key(Key::Backspace, false),
        UiAction::SettingsBackspace
    ));
    assert!(matches!(ui.on_key(Key::Enter, false), UiAction::SaveSettings));
    assert_eq!(ui.screen, AppScreen::Main);
    assert_eq!(ui.input_mode, InputMode::Normal);

    ui.on_key(Key::Char('s'), false);
    assert!(matches!(ui.on_key(Key::Esc, false), UiAction::RevertSettings));
    assert_eq!(ui.screen, AppScreen::Main);
}
