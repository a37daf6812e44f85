//! A platform-neutral description of an application's menu bar.

use vstd::prelude::*;
use vstd::string::StringExecFns;

use crate::APP_NAME;

verus! {

/// A menu: a title and a list of items. It is attached to the application
/// (macOS) or to the main window (Windows, Linux); menus can also be
/// contextual or live in the system tray.
pub struct Menu {
    pub title: String,
    pub items: Vec<MenuItem>,
}

impl Menu {
    /// An empty menu with the given title.
    pub fn new(title: &str) -> (r: Self)
        ensures
            r.title@ == title@,
            r.items@.len() == 0,
    {
        Menu { title: title.to_owned(), items: Vec::new() }
    }

    /// This menu with `item` appended.
    pub fn add(self, item: MenuItem) -> (r: Self)
        ensures
            r.title == self.title,
            r.items@ == self.items@.push(item),
    {
        let mut m = self;
        m.items.push(item);
        m
    }
}

/// An item of a menu: an action with an optional keyboard shortcut, a
/// submenu, or a divider between groups of related items.
pub enum MenuItem {
    Separator,
    Entry(String, MenuShortcut, MenuAction),
    SubMenu(Menu),
}

impl MenuItem {
    /// An action entry.
    pub fn new(title: &str, shortcut: MenuShortcut, action: MenuAction) -> (r: Self)
        ensures
            r matches MenuItem::Entry(t, s, a) && t@ == title@ && s == shortcut && a == action,
    {
        MenuItem::Entry(title.to_owned(), shortcut, action)
    }
}

/// The keyboard shortcut of a menu entry.
#[derive(Debug, Clone, Copy, PartialEq, Eq, Structural)]
pub enum MenuShortcut {
    NoShortcut,
    System(SystemShortcut),
}

/// Shortcuts whose keys each platform fixes for all of its applications.
#[derive(Debug, Clone, Copy, PartialEq, Eq, Structural)]
pub enum SystemShortcut {
    Preferences,
    HideApp,
    HideOthers,
    QuitApp,
}

/// A set of modifier keys, one bit each: `ModifierKeys(ModifierKeys::SHIFT)`
/// is Shift alone.
#[derive(Debug, Clone, Copy, PartialEq, Eq, Structural)]
pub struct ModifierKeys(pub u8);

impl ModifierKeys {
    pub const NONE: u8 = 0;
    pub const CAPSLOCK: u8 = 1;
    pub const SHIFT: u8 = 2;
    pub const CONTROL: u8 = 4;
    pub const OPTION: u8 = 8;
    pub const COMMAND: u8 = 16;
    pub const NUMPAD: u8 = 32;
    pub const HELP: u8 = 64;
    pub const FUNCTION: u8 = 128;

    /// Whether key bit `i` is in the set.
    pub open spec fn has(self, i: u8) -> bool {
        (self.0 >> i) & 1u8 == 1u8
    }

    /// Whether every key of `other` is in this set.
    pub fn contains(self, other: ModifierKeys) -> (r: bool)
        ensures
            r <==> forall|i: u8| i < 8 ==> (other.has(i) ==> self.has(i)),
    {
        let a = self.0;
        let b = other.0;
        let r = (a & b) == b;
        if r {
            assert forall|i: u8| i < 8 implies (other.has(i) ==> self.has(i)) by {
                assert((b >> i) & 1u8 == 1u8 ==> (a >> i) & 1u8 == 1u8) by (bit_vector)
                    requires
                        (a & b) == b,
                        i < 8,
                ;
            }
        } else {
            assert(!forall|i: u8| i < 8 ==> (other.has(i) ==> self.has(i))) by {
                if forall|i: u8| i < 8 ==> (other.has(i) ==> self.has(i)) {
                    assert(other.has(0u8) ==> self.has(0u8));
                    assert(other.has(1u8) ==> self.has(1u8));
                    assert(other.has(2u8) ==> self.has(2u8));
                    assert(other.has(3u8) ==> self.has(3u8));
                    assert(other.has(4u8) ==> self.has(4u8));
                    assert(other.has(5u8) ==> self.has(5u8));
                    assert(other.has(6u8) ==> self.has(6u8));
                    assert(other.has(7u8) ==> self.has(7u8));
                    assert((a & b) == b) by (bit_vector)
                        requires
                            (b >> 0u8) & 1u8 == 1u8 ==> (a >> 0u8) & 1u8 == 1u8,
                            (b >> 1u8) & 1u8 == 1u8 ==> (a >> 1u8) & 1u8 == 1u8,
                            (b >> 2u8) & 1u8 == 1u8 ==> (a >> 2u8) & 1u8 == 1u8,
                            (b >> 3u8) & 1u8 == 1u8 ==> (a >> 3u8) & 1u8 == 1u8,
                            (b >> 4u8) & 1u8 == 1u8 ==> (a >> 4u8) & 1u8 == 1u8,
                            (b >> 5u8) & 1u8 == 1u8 ==> (a >> 5u8) & 1u8 == 1u8,
                            (b >> 6u8) & 1u8 == 1u8 ==> (a >> 6u8) & 1u8 == 1u8,
                            (b >> 7u8) & 1u8 == 1u8 ==> (a >> 7u8) & 1u8 == 1u8,
                    ;
                }
            }
        }
        r
    }
}

impl std::ops::BitOr for ModifierKeys {
    type Output = Self;

    fn bitor(self, rhs: Self) -> (r: Self) {
        ModifierKeys(self.0 | rhs.0)
    }
}

impl vstd::std_specs::ops::BitOrSpecImpl for ModifierKeys {
    open spec fn obeys_bitor_spec() -> bool {
        true
    }

    open spec fn bitor_req(self, rhs: ModifierKeys) -> bool {
        true
    }

    open spec fn bitor_spec(self, rhs: ModifierKeys) -> ModifierKeys {
        ModifierKeys(self.0 | rhs.0)
    }
}

/// What selecting a menu entry does.
#[derive(Debug, Clone, Copy, PartialEq, Eq, Structural)]
pub enum MenuAction {
    System(SystemAction),
}

/// Actions that the platform carries out for the application.
#[derive(Debug, Clone, Copy, PartialEq, Eq, Structural)]
pub enum SystemAction {
    LaunchAboutWindow,
    LaunchPreferences,
    ServicesMenu,
    HideApp,
    HideOthers,
    ShowAll,
    Terminate,
}

/// The kind of a menu item: separator, the action of an entry, or submenu.
pub open spec fn item_action(item: MenuItem) -> Option<MenuAction> {
    match item {
        MenuItem::Entry(_, _, a) => Some(a),
        _ => None,
    }
}

/// The application menu's entries, top to bottom, by action; `None` stands
/// for a separator.
pub open spec fn app_menu_layout() -> Seq<Option<MenuAction>> {
    seq![
        Some(MenuAction::System(SystemAction::LaunchAboutWindow)),
        None,
        Some(MenuAction::System(SystemAction::LaunchPreferences)),
        None,
        Some(MenuAction::System(SystemAction::ServicesMenu)),
        None,
        Some(MenuAction::System(SystemAction::HideApp)),
        Some(MenuAction::System(SystemAction::HideOthers)),
        Some(MenuAction::System(SystemAction::ShowAll)),
        None,
        Some(MenuAction::System(SystemAction::Terminate)),
    ]
}

/// The application's menu bar: a menu titled with the application's name
/// holding one untitled submenu with About, Settings, Services, Hide, Hide
/// Others, Show All and Quit, grouped by separators.
pub fn app_menu_bar() -> (r: Menu)
    ensures
        r.title@ == APP_NAME@,
        r.items@.len() == 1,
        r.items@[0] matches MenuItem::SubMenu(sub) && sub.items@.len() == app_menu_layout().len() && forall|i: int|
            0 <= i < sub.items@.len() ==> item_action(#[trigger] sub.items@[i]) == app_menu_layout()[i],
{
    let sub = Menu::new("")
        .add(MenuItem::new(&"About ".to_owned().concat(APP_NAME), MenuShortcut::NoShortcut, MenuAction::System(SystemAction::LaunchAboutWindow)))
        .add(MenuItem::Separator)
        .add(MenuItem::new("Settings...", MenuShortcut::System(SystemShortcut::Preferences), MenuAction::System(SystemAction::LaunchPreferences)))
        .add(MenuItem::Separator)
        .add(MenuItem::new("Services", MenuShortcut::NoShortcut, MenuAction::System(SystemAction::ServicesMenu)))
        .add(MenuItem::Separator)
        .add(MenuItem::new(&"Hide ".to_owned().concat(APP_NAME), MenuShortcut::System(SystemShortcut::HideApp), MenuAction::System(SystemAction::HideApp)))
        .add(MenuItem::new("Hide Others", MenuShortcut::System(SystemShortcut::HideOthers), MenuAction::System(SystemAction::HideOthers)))
        .add(MenuItem::new("Show All", MenuShortcut::NoShortcut, MenuAction::System(SystemAction::ShowAll)))
        .add(MenuItem::Separator)
        .add(MenuItem::new(&"Quit ".to_owned().concat(APP_NAME), MenuShortcut::System(SystemShortcut::QuitApp), MenuAction::System(SystemAction::Terminate)));
    assert(sub.items@.len() == 11);
    assert forall|i: int| 0 <= i < sub.items@.len() implies item_action(#[trigger] sub.items@[i]) == app_menu_layout()[i] by {}
    Menu::new(APP_NAME).add(MenuItem::SubMenu(sub))
}

} // verus!
