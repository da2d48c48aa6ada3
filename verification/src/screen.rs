//! The interaction-mode state machine.
//!
//! Screen and input mode form a tagged-variant state machine driven by
//! key events; every transition yields at most one action for the
//! surrounding shell to perform.  Rendering is an external
//! collaborator that only reads snapshots of this state.

use vstd::prelude::*;

verus! {

/// Which screen is shown.
#[derive(Clone, Copy, Debug, PartialEq, Eq, Structural)]
pub enum AppScreen {
    Main,
    Settings,
    Help,
}

/// Which input mode keys are interpreted under.
#[derive(Clone, Copy, Debug, PartialEq, Eq, Structural)]
pub enum InputMode {
    Normal,
    Command,
    Message,
    Settings,
}

/// A key event, independent of any terminal library.
#[derive(Clone, Copy, Debug, PartialEq, Eq, Structural)]
pub enum Key {
    Char(char),
    Enter,
    Esc,
    Backspace,
    Tab,
    Up,
    Down,
    Other,
}

/// What the shell must do after a transition.
pub enum UiAction {
    /// Nothing beyond the state change.
    Nothing,
    /// Leave the application.
    Quit,
    /// Report that no active group is selected.
    RequireActiveGroup,
    /// Run the entered command line.
    ExecuteCommand(Vec<char>),
    /// Send the entered message to the active group.
    SendMessage(Vec<char>),
    /// Persist the edited settings.
    SaveSettings,
    /// Drop the edited settings.
    RevertSettings,
    /// Move the group selection up.
    SelectPrevGroup,
    /// Move the group selection down.
    SelectNextGroup,
    /// Scroll the transcript down.
    ScrollDown,
    /// Scroll the transcript up.
    ScrollUp,
    /// Append a character to the focused settings field.
    SettingsChar(char),
    /// Delete a character from the focused settings field.
    SettingsBackspace,
}

/// The interaction state: the screen, the input mode, the command or
/// message being entered, and which settings field has focus.
pub struct UiState {
    pub screen: AppScreen,
    pub input_mode: InputMode,
    pub input: Vec<char>,
    pub settings_field: u8,
}

impl UiState {
    /// The state a client starts in.
    pub fn new() -> (r: UiState)
        ensures
            r.screen == AppScreen::Main,
            r.input_mode == InputMode::Normal,
            r.input@.len() == 0,
            r.settings_field == 0,
    {
        UiState {
            screen: AppScreen::Main,
            input_mode: InputMode::Normal,
            input: Vec::new(),
            settings_field: 0,
        }
    }

    /// Dismiss the help screen.
    pub fn dismiss_help(&mut self)
        ensures
            final(self).screen == AppScreen::Main,
            final(self).input_mode == old(self).input_mode,
            final(self).input == old(self).input,
            final(self).settings_field == old(self).settings_field,
    {
        self.screen = AppScreen::Main;
    }

    /// Feed one key event through the state machine in normal mode.
    fn on_key_normal(&mut self, key: Key, has_active_group: bool) -> (r: UiAction)
        requires
            old(self).input_mode == InputMode::Normal,
        ensures
            normal_step(*old(self), *final(self), key, has_active_group, r),
    {
        match key {
            Key::Char(c) => {
                if c == 'q' {
                    UiAction::Quit
                } else if c == 'c' {
                    self.input_mode = InputMode::Command;
                    UiAction::Nothing
                } else if c == 'm' {
                    if has_active_group {
                        self.input_mode = InputMode::Message;
                        UiAction::Nothing
                    } else {
                        UiAction::RequireActiveGroup
                    }
                } else if c == 's' {
                    self.screen = AppScreen::Settings;
                    self.input_mode = InputMode::Settings;
                    UiAction::Nothing
                } else if c == 'h' {
                    self.screen = AppScreen::Help;
                    UiAction::Nothing
                } else if c == 'j' {
                    UiAction::ScrollDown
                } else if c == 'k' {
                    UiAction::ScrollUp
                } else {
                    UiAction::Nothing
                }
            },
            Key::Up => UiAction::SelectPrevGroup,
            Key::Down => UiAction::SelectNextGroup,
            _ => UiAction::Nothing,
        }
    }

    /// Feed one key event through the state machine in an entry mode
    /// (command or message): characters edit the line, Enter submits
    /// it and returns to normal mode, Esc abandons it.
    fn on_key_entry(&mut self, key: Key) -> (r: UiAction)
        requires
            old(self).input_mode == InputMode::Command || old(self).input_mode
                == InputMode::Message,
        ensures
            entry_step(*old(self), *final(self), key, r),
    {
        match key {
            Key::Enter => {
                let mut line: Vec<char> = Vec::new();
                core::mem::swap(&mut line, &mut self.input);
                let was_command = self.input_mode == InputMode::Command;
                self.input_mode = InputMode::Normal;
                if was_command {
                    UiAction::ExecuteCommand(line)
                } else {
                    UiAction::SendMessage(line)
                }
            },
            Key::Esc => {
                self.input = Vec::new();
                self.input_mode = InputMode::Normal;
                UiAction::Nothing
            },
            Key::Char(c) => {
                self.input.push(c);
                UiAction::Nothing
            },
            Key::Backspace => {
                let _ = self.input.pop();
                proof {
                    if old(self).input@.len() > 0 {
                        assert(self.input@ =~= old(self).input@.drop_last());
                    }
                }
                UiAction::Nothing
            },
            _ => UiAction::Nothing,
        }
    }

    /// Feed one key event through the state machine in settings mode:
    /// Tab moves the focus, Enter saves, Esc reverts, characters edit
    /// the focused field.
    fn on_key_settings(&mut self, key: Key) -> (r: UiAction)
        requires
            old(self).input_mode == InputMode::Settings,
        ensures
            settings_step(*old(self), *final(self), key, r),
    {
        match key {
            Key::Enter => {
                self.screen = AppScreen::Main;
                self.input_mode = InputMode::Normal;
                UiAction::SaveSettings
            },
            Key::Esc => {
                self.screen = AppScreen::Main;
                self.input_mode = InputMode::Normal;
                UiAction::RevertSettings
            },
            Key::Tab => {
                self.settings_field = if self.settings_field == 0 {
                    1
                } else {
                    0
                };
                UiAction::Nothing
            },
            Key::Char(c) => UiAction::SettingsChar(c),
            Key::Backspace => UiAction::SettingsBackspace,
            _ => UiAction::Nothing,
        }
    }

    /// Feed one key event through the state machine.
    pub fn on_key(&mut self, key: Key, has_active_group: bool) -> (r: UiAction)
        ensures
            old(self).input_mode == InputMode::Normal ==> normal_step(
                *old(self),
                *final(self),
                key,
                has_active_group,
                r,
            ),
            (old(self).input_mode == InputMode::Command || old(self).input_mode
                == InputMode::Message) ==> entry_step(*old(self), *final(self), key, r),
            old(self).input_mode == InputMode::Settings ==> settings_step(
                *old(self),
                *final(self),
                key,
                r,
            ),
    {
        match self.input_mode {
            InputMode::Normal => self.on_key_normal(key, has_active_group),
            InputMode::Command => self.on_key_entry(key),
            InputMode::Message => self.on_key_entry(key),
            InputMode::Settings => self.on_key_settings(key),
        }
    }
}

/// Where a wrap-around list selection lands: one step toward the
/// front (wrapping to the back) or toward the back (wrapping to the
/// front), after clamping a stale index to the front.
pub open spec fn wrap_step(selected: int, count: int, upward: bool) -> int {
    let sel = if 0 <= selected < count {
        selected
    } else {
        0
    };
    if upward {
        if sel > 0 {
            sel - 1
        } else {
            count - 1
        }
    } else {
        if sel + 1 < count {
            sel + 1
        } else {
            0
        }
    }
}

/// Move a list selection one step with wrap-around.
pub fn wrap_selection(selected: usize, count: usize, upward: bool) -> (r: usize)
    requires
        count > 0,
    ensures
        r < count,
        r == wrap_step(selected as int, count as int, upward),
{
    let sel = if selected < count {
        selected
    } else {
        0
    };
    if upward {
        if sel > 0 {
            sel - 1
        } else {
            count - 1
        }
    } else {
        if sel + 1 < count {
            sel + 1
        } else {
            0
        }
    }
}

/// The normal-mode transition relation.
pub open spec fn normal_step(
    pre: UiState,
    post: UiState,
    key: Key,
    has_active_group: bool,
    r: UiAction,
) -> bool {
    &&& post.input == pre.input
    &&& post.settings_field == pre.settings_field
    &&& match key {
        Key::Char(c) => {
            if c == 'q' {
                r is Quit && post == pre
            } else if c == 'c' {
                r is Nothing && post.input_mode == InputMode::Command && post.screen == pre.screen
            } else if c == 'm' {
                if has_active_group {
                    r is Nothing && post.input_mode == InputMode::Message && post.screen
                        == pre.screen
                } else {
                    r is RequireActiveGroup && post == pre
                }
            } else if c == 's' {
                r is Nothing && post.input_mode == InputMode::Settings && post.screen
                    == AppScreen::Settings
            } else if c == 'h' {
                r is Nothing && post.screen == AppScreen::Help && post.input_mode
                    == pre.input_mode
            } else if c == 'j' {
                r is ScrollDown && post == pre
            } else if c == 'k' {
                r is ScrollUp && post == pre
            } else {
                r is Nothing && post == pre
            }
        },
        Key::Up => r is SelectPrevGroup && post == pre,
        Key::Down => r is SelectNextGroup && post == pre,
        _ => r is Nothing && post == pre,
    }
}

/// The entry-mode (command or message) transition relation.
pub open spec fn entry_step(pre: UiState, post: UiState, key: Key, r: UiAction) -> bool {
    &&& post.screen == pre.screen
    &&& post.settings_field == pre.settings_field
    &&& match key {
        Key::Enter => {
            &&& post.input_mode == InputMode::Normal
            &&& post.input@.len() == 0
            &&& (pre.input_mode == InputMode::Command ==> (r matches UiAction::ExecuteCommand(
                line,
            ) && line@ == pre.input@))
            &&& (pre.input_mode == InputMode::Message ==> (r matches UiAction::SendMessage(line)
                && line@ == pre.input@))
        },
        Key::Esc => post.input_mode == InputMode::Normal && post.input@.len() == 0 && r is Nothing,
        Key::Char(c) => post.input_mode == pre.input_mode && post.input@ == pre.input@.push(c)
            && r is Nothing,
        Key::Backspace => post.input_mode == pre.input_mode && post.input@ == (
        if pre.input@.len() == 0 {
            pre.input@
        } else {
            pre.input@.drop_last()
        }) && r is Nothing,
        _ => post == pre && r is Nothing,
    }
}

/// The settings-mode transition relation.
pub open spec fn settings_step(pre: UiState, post: UiState, key: Key, r: UiAction) -> bool {
    &&& post.input == pre.input
    &&& match key {
        Key::Enter => post.screen == AppScreen::Main && post.input_mode == InputMode::Normal
            && post.settings_field == pre.settings_field && r is SaveSettings,
        Key::Esc => post.screen == AppScreen::Main && post.input_mode == InputMode::Normal
            && post.settings_field == pre.settings_field && r is RevertSettings,
        Key::Tab => post == (UiState {
            settings_field: if pre.settings_field == 0 {
                1u8
            } else {
                0u8
            },
            ..pre
        }) && r is Nothing,
        Key::Char(c) => post == pre && (r matches UiAction::SettingsChar(d) && d == c),
        Key::Backspace => post == pre && r is SettingsBackspace,
        _ => post == pre && r is Nothing,
    }
}

} // verus!
