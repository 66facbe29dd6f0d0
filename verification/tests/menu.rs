use retro_ide::menu::{command_for, menu_bar, notification_for, ABOUT_ID, ABOUT_LABEL};
use retro_ide::{Menu, MenuCommand, MenuEntry};

const ALL: [MenuCommand; 9] = [
    MenuCommand::OpenProject,
    MenuCommand::CloseProject,
    MenuCommand::SaveFile,
    MenuCommand::Undo,
    MenuCommand::Redo,
    MenuCommand::Cut,
    MenuCommand::Copy,
    MenuCommand::Paste,
    MenuCommand::SelectAll,
];

#[test]
fn each_identifier_raises_its_notification() {
    assert_eq!(notification_for("open_project"), Some("menu-open-project"));
    assert_eq!(notification_for("close_project"), Some("menu-close-project"));
    assert_eq!(notification_for("save_file"), Some("menu-save-file"));
    assert_eq!(notification_for("undo"), Some("menu-undo"));
    assert_eq!(notification_for("redo"), Some("menu-redo"));
    assert_eq!(notification_for("cut"), Some("menu-cut"));
    assert_eq!(notification_for("copy"), Some("menu-copy"));
    assert_eq!(notification_for("paste"), Some("menu-paste"));
    assert_eq!(notification_for("select_all"), Some("menu-select-all"));
}

#[test]
fn other_identifiers_raise_nothing() {
    assert_eq!(notification_for("about"), None);
    assert_eq!(notification_for(ABOUT_ID), None);
    assert_eq!(notification_for(""), None);
    assert_eq!(notification_for("quit"), None);
    assert_eq!(notification_for("Undo"), None);
    assert_eq!(notification_for("undo "), None);
    assert_eq!(notification_for("menu-undo"), None);
    assert_eq!(command_for("open-project"), None);
}

#[test]
fn an_identifier_leads_back_to_its_command() {
    for c in ALL {
        assert_eq!(command_for(c.id()), Some(c));
        assert_eq!(notification_for(c.id()), Some(c.event()));
    }
    for (i, a) in ALL.iter().enumerate() {
        for b in ALL.iter().skip(i + 1) {
            assert_ne!(a.id(), b.id());
            assert_ne!(a.event(), b.event());
        }
    }
}

#[test]
fn commands_have_their_labels_and_keys() {
    assert_eq!(MenuCommand::OpenProject.label(), "Open Project...");
    assert_eq!(MenuCommand::OpenProject.accelerator(), Some("CmdOrCtrl+O"));
    assert_eq!(MenuCommand::CloseProject.label(), "Close Project");
    assert_eq!(MenuCommand::CloseProject.accelerator(), None);
    assert_eq!(MenuCommand::SaveFile.label(), "Save");
    assert_eq!(MenuCommand::SaveFile.accelerator(), Some("CmdOrCtrl+S"));
    assert_eq!(MenuCommand::Undo.label(), "Undo");
    assert_eq!(MenuCommand::Undo.accelerator(), Some("CmdOrCtrl+Z"));
    assert_eq!(MenuCommand::Redo.label(), "Redo");
    assert_eq!(MenuCommand::Redo.accelerator(), Some("CmdOrCtrl+Shift+Z"));
    assert_eq!(MenuCommand::Cut.label(), "Cut");
    assert_eq!(MenuCommand::Cut.accelerator(), Some("CmdOrCtrl+X"));
    assert_eq!(MenuCommand::Copy.label(), "Copy");
    assert_eq!(MenuCommand::Copy.accelerator(), Some("CmdOrCtrl+C"));
    assert_eq!(MenuCommand::Paste.label(), "Paste");
    assert_eq!(MenuCommand::Paste.accelerator(), Some("CmdOrCtrl+V"));
    assert_eq!(MenuCommand::SelectAll.label(), "Select All");
    assert_eq!(MenuCommand::SelectAll.accelerator(), Some("CmdOrCtrl+A"));
    assert_eq!(ABOUT_LABEL, "About Retro IDE");
}

#[test]
fn the_menu_bar_has_its_three_menus() {
    assert_eq!(menu_bar(), vec![Menu::App, Menu::File, Menu::Edit]);
    assert_eq!(Menu::App.title(), "Retro IDE");
    assert_eq!(Menu::File.title(), "File");
    assert_eq!(Menu::Edit.title(), "Edit");
    assert_eq!(Menu::App.entries(), vec![MenuEntry::About, MenuEntry::Separator, MenuEntry::Quit]);
    assert_eq!(
        Menu::File.entries(),
        vec![
            MenuEntry::Command(MenuCommand::OpenProject),
            MenuEntry::Command(MenuCommand::CloseProject),
            MenuEntry::Separator,
            MenuEntry::Command(MenuCommand::SaveFile),
        ]
    );
    assert_eq!(
        Menu::Edit.entries(),
        vec![
            MenuEntry::Command(MenuCommand::Undo),
            MenuEntry::Command(MenuCommand::Redo),
            MenuEntry::Separator,
            MenuEntry::Command(MenuCommand::Cut),
            MenuEntry::Command(MenuCommand::Copy),
            MenuEntry::Command(MenuCommand::Paste),
            MenuEntry::Separator,
            MenuEntry::Command(MenuCommand::SelectAll),
        ]
    );
}

#[test]
fn every_command_stands_in_one_menu() {
    for c in ALL {
        let places: usize = menu_bar()
            .into_iter()
            .map(|m| m.entries().into_iter().filter(|e| *e == MenuEntry::Command(c)).count())
            .sum();
        assert_eq!(places, 1);
    }
}
