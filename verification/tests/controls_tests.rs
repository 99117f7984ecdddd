use inuktitut_tutor::app::{App, KeyCode, KeyInput};
use inuktitut_tutor::controls::{command_for, handle_key, Command};

fn press(code: KeyCode) -> KeyInput {
    KeyInput { code, pressed: true, ctrl: false }
}

#[test]
fn bindings() {
    assert_eq!(command_for(KeyInput { code: KeyCode::Char('s'), pressed: true, ctrl: true }), Command::SaveAndQuit);
    assert_eq!(command_for(press(KeyCode::Char('s'))), Command::Type);
    assert_eq!(command_for(press(KeyCode::Char('q'))), Command::Quit);
    assert_eq!(command_for(press(KeyCode::Esc)), Command::Quit);
    assert_eq!(command_for(press(KeyCode::Char('['))), Command::PrevStep);
    assert_eq!(command_for(press(KeyCode::Left)), Command::PrevStep);
    assert_eq!(command_for(press(KeyCode::Char(']'))), Command::NextStep);
    assert_eq!(command_for(press(KeyCode::Right)), Command::NextStep);
    assert_eq!(command_for(press(KeyCode::Char('r'))), Command::Restart);
    assert_eq!(command_for(press(KeyCode::Char('h'))), Command::ToggleLabels);
    assert_eq!(command_for(press(KeyCode::Backspace)), Command::Type);
    assert_eq!(command_for(press(KeyCode::Char('\u{146f}'))), Command::Type);
    assert_eq!(command_for(KeyInput { code: KeyCode::Char('q'), pressed: false, ctrl: false }), Command::Ignore);
}

#[test]
fn keys_drive_the_session() {
    let mut app = App::new();
    handle_key(&mut app, press(KeyCode::Char(']')), 0);
    assert_eq!(app.step, 1);
    handle_key(&mut app, press(KeyCode::Left), 0);
    assert_eq!(app.step, 0);
    handle_key(&mut app, press(KeyCode::Char('h')), 0);
    assert!(!app.show_key_labels);
    let target = app.current_cell().glyph;
    handle_key(&mut app, press(KeyCode::Char(target)), 5);
    assert_eq!(app.cell_idx, 1);
    handle_key(&mut app, press(KeyCode::Char('r')), 6);
    assert_eq!(app.cell_idx, 0);
    handle_key(&mut app, KeyInput { code: KeyCode::Char('q'), pressed: false, ctrl: false }, 7);
    assert!(!app.quit);
    handle_key(&mut app, press(KeyCode::Esc), 7);
    assert!(app.quit);
    assert!(!app.save_and_quit);
    handle_key(&mut app, KeyInput { code: KeyCode::Char('s'), pressed: true, ctrl: true }, 8);
    assert!(app.save_and_quit);
}
