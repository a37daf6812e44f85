use atomcad::menubar::{app_menu_bar, Menu, MenuAction, MenuItem, MenuShortcut, ModifierKeys, SystemAction, SystemShortcut};
use atomcad::platform::Trampoline;
use atomcad::APP_NAME;

#[test]
fn modifier_sets() {
    let shift = ModifierKeys(ModifierKeys::SHIFT);
    let cmd = ModifierKeys(ModifierKeys::COMMAND);
    let both = shift | cmd;
    assert!(both.contains(shift));
    assert!(both.contains(cmd));
    assert!(!shift.contains(both));
    assert!(shift.contains(ModifierKeys(ModifierKeys::NONE)));
    assert!(!ModifierKeys(ModifierKeys::OPTION).contains(ModifierKeys(ModifierKeys::CONTROL)));
    assert_eq!(both, ModifierKeys(18));
}

#[test]
fn menu_add_appends() {
    let m = Menu::new("File").add(MenuItem::Separator).add(MenuItem::new(
        "Quit",
        MenuShortcut::System(SystemShortcut::QuitApp),
        MenuAction::System(SystemAction::Terminate),
    ));
    assert_eq!(m.title, "File");
    assert_eq!(m.items.len(), 2);
    assert!(matches!(m.items[0], MenuItem::Separator));
    match &m.items[1] {
        MenuItem::Entry(t, s, a) => {
            assert_eq!(t, "Quit");
            assert_eq!(*s, MenuShortcut::System(SystemShortcut::QuitApp));
            assert_eq!(*a, MenuAction::System(SystemAction::Terminate));
        }
        _ => panic!("expected an entry"),
    }
}

#[test]
fn application_menu_layout() {
    let m = app_menu_bar();
    assert_eq!(m.title, APP_NAME);
    assert_eq!(m.items.len(), 1);
    let sub = match &m.items[0] {
        MenuItem::SubMenu(s) => s,
        _ => panic!("expected a submenu"),
    };
    assert_eq!(sub.title, "");
    let titles: Vec<String> = sub
        .items
        .iter()
        .map(|i| match i {
            MenuItem::Separator => "-".to_string(),
            MenuItem::Entry(t, _, _) => t.clone(),
            MenuItem::SubMenu(s) => s.title.clone(),
        })
        .collect();
    assert_eq!(
        titles,
        vec![
            "About atomCAD", "-", "Settings...", "-", "Services", "-", "Hide atomCAD", "Hide Others", "Show All",
            "-", "Quit atomCAD"
        ]
    );
}

#[test]
fn trampoline_runs_in_place() {
    assert!(Trampoline::new(APP_NAME, "com.example.app", "0.1.0").is_ok());
}
