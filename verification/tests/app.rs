use leaf_core::app::{App, PathFlash, PathKind};
use leaf_core::editor::{binary_name, EditorEntry};

fn editors() -> Vec<EditorEntry> {
    vec![
        EditorEntry::new("Nano".to_string(), "nano".to_string()),
        EditorEntry::new("Vim".to_string(), "/usr/bin/vim".to_string()),
        EditorEntry::new("VS Code".to_string(), "code --wait".to_string()),
    ]
}

#[test]
fn binary_names() {
    assert_eq!(binary_name("  /usr/bin/vim -u NONE"), "vim");
    assert_eq!(binary_name("code --wait"), "code");
    assert_eq!(binary_name(r"C:\Tools\nvim.exe"), "nvim.exe");
    assert_eq!(binary_name(""), "");
}

#[test]
fn help_and_path_popups() {
    let mut app = App::new(Some("notes.md".to_string()), None);
    assert!(!app.is_popup_open());
    app.open_help();
    assert!(app.is_help_open());
    assert!(app.is_popup_open());
    app.close_help();
    assert!(!app.is_help_open());
    app.open_path_popup();
    assert!(app.is_path_popup_open());
    app.copy_path_relative(true);
    let flash = app.path_copy_flash().expect("flash recorded");
    assert_eq!(flash.0, PathKind::Relative);
    assert!(flash.1);
    app.close_path_popup();
    assert!(!app.is_path_popup_open());
    assert!(app.path_copy_flash().is_none());
    assert!(!app.is_popup_open());
}

#[test]
fn clipboard_flash_messages() {
    let mut app = App::new(None, None);
    app.copy_path_to_clipboard_relative(true);
    assert_eq!(app.path_flash(), Some(PathFlash::RelativeCopied));
    app.copy_path_to_clipboard_absolute(true);
    assert_eq!(app.path_flash(), Some(PathFlash::AbsoluteCopied));
    app.copy_path_to_clipboard_absolute(false);
    assert_eq!(app.path_flash(), Some(PathFlash::CopyFailed));
    app.copy_path_absolute(false);
    assert_eq!(app.path_copy_flash().map(|f| (f.0.clone(), f.1)), Some((PathKind::Absolute, false)));
}

#[test]
fn absolute_path_display() {
    let stdin = App::new(None, None);
    assert_eq!(stdin.absolute_path_string("ignored"), "(stdin)");
    let file = App::new(Some("a.md".to_string()), None);
    assert_eq!(file.absolute_path_string(r"\\?\C:\docs\a.md"), r"C:\docs\a.md");
    assert_eq!(file.absolute_path_string("/home/u/a.md"), "/home/u/a.md");
}

#[test]
fn editor_picker_selects_configured_program() {
    let mut app = App::new(None, Some("vim -p".to_string()));
    app.open_editor_picker(editors());
    assert!(app.is_editor_picker_open());
    assert!(app.is_popup_open());
    assert_eq!(app.editor_picker_index(), 1);
    assert_eq!(app.editor_picker_entries().len(), 3);
    app.move_editor_picker_down();
    app.close_editor_picker();
    assert!(!app.is_editor_picker_open());
    app.open_editor_picker(editors());
    assert_eq!(app.editor_picker_index(), 2);
}

#[test]
fn editor_picker_defaults_to_first_and_wraps() {
    let mut app = App::new(None, Some("emacs".to_string()));
    app.open_editor_picker(editors());
    assert_eq!(app.editor_picker_index(), 0);
    app.move_editor_picker_up();
    assert_eq!(app.editor_picker_index(), 2);
    app.move_editor_picker_down();
    assert_eq!(app.editor_picker_index(), 0);
    app.cancel_editor_picker();
    assert!(!app.is_editor_picker_open());
    app.open_editor_picker(editors());
    assert_eq!(app.editor_picker_index(), 0);
}

#[test]
fn empty_editor_picker_does_not_move() {
    let mut app = App::new(None, None);
    app.open_editor_picker(Vec::new());
    app.move_editor_picker_down();
    app.move_editor_picker_up();
    assert_eq!(app.editor_picker_index(), 0);
    app.close_editor_picker();
    assert!(!app.is_editor_picker_open());
}
