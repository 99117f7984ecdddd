//! The key bindings of a practice session: which keys save, quit, move
//! between steps, restart or toggle the key labels, and which reach the
//! typing itself.

use vstd::prelude::*;
use crate::app::{App, KeyCode, KeyInput};

verus! {

/// What a key event asks of the session.
#[derive(Debug, Clone, Copy, PartialEq, Eq, Structural)]
pub enum Command {
    /// Control-S: write the progress file and stop.
    SaveAndQuit,
    /// `q` or Escape: stop without writing.
    Quit,
    /// `[` or Left: the previous step.
    PrevStep,
    /// `]` or Right: the next step.
    NextStep,
    /// `r`: start the step over.
    Restart,
    /// `h`: show or hide the key labels under the glyphs.
    ToggleLabels,
    /// Anything else goes to the typing.
    Type,
    /// A release or a repeat: nothing to do.
    Ignore,
}

pub open spec fn spec_command_for(key: KeyInput) -> Command {
    if !key.pressed {
        Command::Ignore
    } else {
        match key.code {
            KeyCode::Char(c) => if c == 's' && key.ctrl {
                Command::SaveAndQuit
            } else if c == 'q' {
                Command::Quit
            } else if c == '[' {
                Command::PrevStep
            } else if c == ']' {
                Command::NextStep
            } else if c == 'r' {
                Command::Restart
            } else if c == 'h' {
                Command::ToggleLabels
            } else {
                Command::Type
            },
            KeyCode::Esc => Command::Quit,
            KeyCode::Left => Command::PrevStep,
            KeyCode::Right => Command::NextStep,
            _ => Command::Type,
        }
    }
}

/// The bindings: Control-S saves and quits; `q` and Escape quit; `[` and
/// Left go back a step, `]` and Right forward; `r` restarts and `h` toggles
/// the labels (with or without Control); every other pressed key goes to
/// the typing, and a key that is not pressed does nothing.
pub proof fn lemma_key_bindings(key: KeyInput)
    ensures
        !key.pressed ==> spec_command_for(key) == Command::Ignore,
        key.pressed && key.ctrl && key.code == KeyCode::Char('s') ==> spec_command_for(key)
            == Command::SaveAndQuit,
        key.pressed && !key.ctrl && key.code == KeyCode::Char('s') ==> spec_command_for(key)
            == Command::Type,
        key.pressed && (key.code == KeyCode::Char('q') || key.code == KeyCode::Esc)
            ==> spec_command_for(key) == Command::Quit,
        key.pressed && (key.code == KeyCode::Char('[') || key.code == KeyCode::Left)
            ==> spec_command_for(key) == Command::PrevStep,
        key.pressed && (key.code == KeyCode::Char(']') || key.code == KeyCode::Right)
            ==> spec_command_for(key) == Command::NextStep,
        key.pressed && key.code == KeyCode::Char('r') ==> spec_command_for(key) == Command::Restart,
        key.pressed && key.code == KeyCode::Char('h') ==> spec_command_for(key)
            == Command::ToggleLabels,
        key.pressed && (key.code == KeyCode::Backspace || key.code == KeyCode::Other)
            ==> spec_command_for(key) == Command::Type,
        key.pressed && key.code is Char && key.code->Char_0 != 's' && key.code->Char_0 != 'q'
            && key.code->Char_0 != '[' && key.code->Char_0 != ']' && key.code->Char_0 != 'r'
            && key.code->Char_0 != 'h' ==> spec_command_for(key) == Command::Type,
{
}

/// The command a key event gives.
pub fn command_for(key: KeyInput) -> (c: Command)
    ensures
        c == spec_command_for(key),
{
    if !key.pressed {
        return Command::Ignore;
    }
    match key.code {
        KeyCode::Char(c) => {
            if c == 's' && key.ctrl {
                Command::SaveAndQuit
            } else if c == 'q' {
                Command::Quit
            } else if c == '[' {
                Command::PrevStep
            } else if c == ']' {
                Command::NextStep
            } else if c == 'r' {
                Command::Restart
            } else if c == 'h' {
                Command::ToggleLabels
            } else {
                Command::Type
            }
        },
        KeyCode::Esc => Command::Quit,
        KeyCode::Left => Command::PrevStep,
        KeyCode::Right => Command::NextStep,
        _ => Command::Type,
    }
}

/// Everything but the session flags is as in `o`.
pub open spec fn only_flags_changed(a: &App, o: &App) -> bool {
    &&& a.lessons@ == o.lessons@
    &&& a.same_record(o)
    &&& a.same_attempt(o)
    &&& a.toast == o.toast
}

/// React to a key event at time `now`, as its command says.
pub fn handle_key(app: &mut App, key: KeyInput, now: u64)
    requires
        old(app).wf(),
        spec_command_for(key) == Command::Type && key.code is Char && !old(app).course_complete
            ==> old(app).total_keystrokes < u32::MAX,
    ensures
        final(app).wf(),
        spec_command_for(key) == Command::SaveAndQuit ==> {
            &&& final(app).save_and_quit
            &&& final(app).quit
            &&& final(app).show_key_labels == old(app).show_key_labels
            &&& only_flags_changed(&*final(app), &*old(app))
        },
        spec_command_for(key) == Command::Quit ==> {
            &&& final(app).quit
            &&& final(app).save_and_quit == old(app).save_and_quit
            &&& final(app).show_key_labels == old(app).show_key_labels
            &&& only_flags_changed(&*final(app), &*old(app))
        },
        spec_command_for(key) == Command::ToggleLabels ==> {
            &&& final(app).show_key_labels == !old(app).show_key_labels
            &&& final(app).quit == old(app).quit
            &&& final(app).save_and_quit == old(app).save_and_quit
            &&& only_flags_changed(&*final(app), &*old(app))
        },
        spec_command_for(key) == Command::PrevStep ==> {
            &&& final(app).same_settings(&*old(app))
            &&& final(app).same_record(&*old(app))
            &&& old(app).step > 0 ==> final(app).at_step_start(old(app).step - 1)
                && final(app).toast is None
            &&& old(app).step == 0 ==> final(app).same_attempt(&*old(app)) && final(app).toast
                == old(app).toast
        },
        spec_command_for(key) == Command::NextStep ==> {
            &&& final(app).same_settings(&*old(app))
            &&& final(app).same_record(&*old(app))
            &&& old(app).step + 1 < old(app).lessons@.len() ==> final(app).at_step_start(
                old(app).step + 1,
            ) && final(app).toast is None
            &&& old(app).step + 1 >= old(app).lessons@.len() ==> final(app).same_attempt(
                &*old(app),
            ) && final(app).toast == old(app).toast
        },
        spec_command_for(key) == Command::Restart ==> {
            &&& final(app).same_settings(&*old(app))
            &&& final(app).same_record(&*old(app))
            &&& final(app).at_step_start(old(app).step as int)
            &&& final(app).toast is None
        },
        spec_command_for(key) == Command::Type ==> {
            &&& key.code is Char ==> final(app).typed(&*old(app), key.code->Char_0, now)
            &&& key.code is Backspace ==> final(app).backspaced(&*old(app))
            &&& !(key.code is Char) && !(key.code is Backspace) ==> *final(app) == *old(app)
        },
        spec_command_for(key) == Command::Ignore ==> *final(app) == *old(app),
{
    match command_for(key) {
        Command::SaveAndQuit => app.request_save_and_quit(),
        Command::Quit => {
            app.quit = true;
        },
        Command::PrevStep => app.prev_step(),
        Command::NextStep => app.next_step(),
        Command::Restart => app.restart_step(),
        Command::ToggleLabels => {
            app.show_key_labels = !app.show_key_labels;
        },
        Command::Type => app.handle_key(key, now),
        Command::Ignore => {},
    }
}

} // verus!
