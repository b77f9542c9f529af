use sqltui::app::App;
use sqltui::app::AppMode;

#[test]
fn new_app_starts_running_in_normal_mode() {
    let app = App::new();
    assert!(app.state);
    assert!(matches!(app.mode, AppMode::Normal));
    assert_eq!(app.editor.context, vec![vec!['\n']]);
    assert!(app.message.context.is_empty());
    assert!(app.table.items.is_empty());
}

#[test]
fn quit_clears_running_flag() {
    let mut app = App::new();
    app.quit();
    assert!(!app.state);
}

#[test]
fn change_mode_switches_only_the_mode() {
    let mut app = App::new();
    app.change_mode(AppMode::Editor);
    assert!(matches!(app.mode, AppMode::Editor));
    assert!(app.state);
    app.change_mode(AppMode::Table);
    assert!(matches!(app.mode, AppMode::Table));
}
