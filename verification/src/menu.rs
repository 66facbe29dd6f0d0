//! The native menu: its layout, the stable identifiers of its items and the
//! notifications that clicks raise.

use vstd::prelude::*;
use crate::text::same_text;

verus! {

/// A menu click that is forwarded to the frontend.
#[derive(Clone, Copy, Debug, PartialEq, Eq, Structural)]
pub enum MenuCommand {
    OpenProject,
    CloseProject,
    SaveFile,
    Undo,
    Redo,
    Cut,
    Copy,
    Paste,
    SelectAll,
}

/// One line of a menu.
#[derive(Clone, Copy, Debug, PartialEq, Eq, Structural)]
pub enum MenuEntry {
    /// The item that tells about the application. Its click raises nothing.
    About,
    Separator,
    /// The platform's own item that quits the application.
    Quit,
    Command(MenuCommand),
}

/// One menu of the menu bar.
#[derive(Clone, Copy, Debug, PartialEq, Eq, Structural)]
pub enum Menu {
    App,
    File,
    Edit,
}

/// The identifier of the item that tells about the application.
pub const ABOUT_ID: &'static str = "about";

/// The label of the item that tells about the application.
pub const ABOUT_LABEL: &'static str = "About Retro IDE";

impl MenuCommand {
    /// The identifier that the menu item of this command carries.
    pub open spec fn id_text(self) -> Seq<char> {
        match self {
            MenuCommand::OpenProject => "open_project"@,
            MenuCommand::CloseProject => "close_project"@,
            MenuCommand::SaveFile => "save_file"@,
            MenuCommand::Undo => "undo"@,
            MenuCommand::Redo => "redo"@,
            MenuCommand::Cut => "cut"@,
            MenuCommand::Copy => "copy"@,
            MenuCommand::Paste => "paste"@,
            MenuCommand::SelectAll => "select_all"@,
        }
    }

    /// The name of the notification that a click on this command raises.
    pub open spec fn event_text(self) -> Seq<char> {
        match self {
            MenuCommand::OpenProject => "menu-open-project"@,
            MenuCommand::CloseProject => "menu-close-project"@,
            MenuCommand::SaveFile => "menu-save-file"@,
            MenuCommand::Undo => "menu-undo"@,
            MenuCommand::Redo => "menu-redo"@,
            MenuCommand::Cut => "menu-cut"@,
            MenuCommand::Copy => "menu-copy"@,
            MenuCommand::Paste => "menu-paste"@,
            MenuCommand::SelectAll => "menu-select-all"@,
        }
    }

    /// The text that the menu shows for this command.
    pub open spec fn label_text(self) -> Seq<char> {
        match self {
            MenuCommand::OpenProject => "Open Project..."@,
            MenuCommand::CloseProject => "Close Project"@,
            MenuCommand::SaveFile => "Save"@,
            MenuCommand::Undo => "Undo"@,
            MenuCommand::Redo => "Redo"@,
            MenuCommand::Cut => "Cut"@,
            MenuCommand::Copy => "Copy"@,
            MenuCommand::Paste => "Paste"@,
            MenuCommand::SelectAll => "Select All"@,
        }
    }

    /// The keys that trigger this command, where it has any.
    pub open spec fn accelerator_text(self) -> Option<Seq<char>> {
        match self {
            MenuCommand::OpenProject => Some("CmdOrCtrl+O"@),
            MenuCommand::CloseProject => None,
            MenuCommand::SaveFile => Some("CmdOrCtrl+S"@),
            MenuCommand::Undo => Some("CmdOrCtrl+Z"@),
            MenuCommand::Redo => Some("CmdOrCtrl+Shift+Z"@),
            MenuCommand::Cut => Some("CmdOrCtrl+X"@),
            MenuCommand::Copy => Some("CmdOrCtrl+C"@),
            MenuCommand::Paste => Some("CmdOrCtrl+V"@),
            MenuCommand::SelectAll => Some("CmdOrCtrl+A"@),
        }
    }

    pub fn id(self) -> (r: &'static str)
        ensures
            r@ == self.id_text(),
    {
        match self {
            MenuCommand::OpenProject => "open_project",
            MenuCommand::CloseProject => "close_project",
            MenuCommand::SaveFile => "save_file",
            MenuCommand::Undo => "undo",
            MenuCommand::Redo => "redo",
            MenuCommand::Cut => "cut",
            MenuCommand::Copy => "copy",
            MenuCommand::Paste => "paste",
            MenuCommand::SelectAll => "select_all",
        }
    }

    pub fn event(self) -> (r: &'static str)
        ensures
            r@ == self.event_text(),
    {
        match self {
            MenuCommand::OpenProject => "menu-open-project",
            MenuCommand::CloseProject => "menu-close-project",
            MenuCommand::SaveFile => "menu-save-file",
            MenuCommand::Undo => "menu-undo",
            MenuCommand::Redo => "menu-redo",
            MenuCommand::Cut => "menu-cut",
            MenuCommand::Copy => "menu-copy",
            MenuCommand::Paste => "menu-paste",
            MenuCommand::SelectAll => "menu-select-all",
        }
    }

    pub fn label(self) -> (r: &'static str)
        ensures
            r@ == self.label_text(),
    {
        match self {
            MenuCommand::OpenProject => "Open Project...",
            MenuCommand::CloseProject => "Close Project",
            MenuCommand::SaveFile => "Save",
            MenuCommand::Undo => "Undo",
            MenuCommand::Redo => "Redo",
            MenuCommand::Cut => "Cut",
            MenuCommand::Copy => "Copy",
            MenuCommand::Paste => "Paste",
            MenuCommand::SelectAll => "Select All",
        }
    }

    pub fn accelerator(self) -> (r: Option<&'static str>)
        ensures
            match r {
                Some(keys) => self.accelerator_text() == Some(keys@),
                None => self.accelerator_text() is None,
            },
    {
        match self {
            MenuCommand::OpenProject => Some("CmdOrCtrl+O"),
            MenuCommand::CloseProject => None,
            MenuCommand::SaveFile => Some("CmdOrCtrl+S"),
            MenuCommand::Undo => Some("CmdOrCtrl+Z"),
            MenuCommand::Redo => Some("CmdOrCtrl+Shift+Z"),
            MenuCommand::Cut => Some("CmdOrCtrl+X"),
            MenuCommand::Copy => Some("CmdOrCtrl+C"),
            MenuCommand::Paste => Some("CmdOrCtrl+V"),
            MenuCommand::SelectAll => Some("CmdOrCtrl+A"),
        }
    }
}

/// The command whose item carries the identifier `id`, if there is one.
pub open spec fn command_of(id: Seq<char>) -> Option<MenuCommand> {
    if id == MenuCommand::OpenProject.id_text() {
        Some(MenuCommand::OpenProject)
    } else if id == MenuCommand::CloseProject.id_text() {
        Some(MenuCommand::CloseProject)
    } else if id == MenuCommand::SaveFile.id_text() {
        Some(MenuCommand::SaveFile)
    } else if id == MenuCommand::Undo.id_text() {
        Some(MenuCommand::Undo)
    } else if id == MenuCommand::Redo.id_text() {
        Some(MenuCommand::Redo)
    } else if id == MenuCommand::Cut.id_text() {
        Some(MenuCommand::Cut)
    } else if id == MenuCommand::Copy.id_text() {
        Some(MenuCommand::Copy)
    } else if id == MenuCommand::Paste.id_text() {
        Some(MenuCommand::Paste)
    } else if id == MenuCommand::SelectAll.id_text() {
        Some(MenuCommand::SelectAll)
    } else {
        None
    }
}

/// The command whose item carries the identifier `id`. An identifier that no
/// command has gives nothing.
pub fn command_for(id: &str) -> (r: Option<MenuCommand>)
    ensures
        r == command_of(id@),
{
    if same_text(id, "open_project") {
        Some(MenuCommand::OpenProject)
    } else if same_text(id, "close_project") {
        Some(MenuCommand::CloseProject)
    } else if same_text(id, "save_file") {
        Some(MenuCommand::SaveFile)
    } else if same_text(id, "undo") {
        Some(MenuCommand::Undo)
    } else if same_text(id, "redo") {
        Some(MenuCommand::Redo)
    } else if same_text(id, "cut") {
        Some(MenuCommand::Cut)
    } else if same_text(id, "copy") {
        Some(MenuCommand::Copy)
    } else if same_text(id, "paste") {
        Some(MenuCommand::Paste)
    } else if same_text(id, "select_all") {
        Some(MenuCommand::SelectAll)
    } else {
        None
    }
}

/// The notification that a click on the item with the identifier `id`
/// raises. A click on any other item raises nothing.
pub fn notification_for(id: &str) -> (r: Option<&'static str>)
    ensures
        match r {
            Some(name) => command_of(id@) matches Some(c) && name@ == c.event_text(),
            None => command_of(id@) is None,
        },
{
    match command_for(id) {
        Some(c) => Some(c.event()),
        None => None,
    }
}

impl Menu {
    /// The title of the menu.
    pub open spec fn title_text(self) -> Seq<char> {
        match self {
            Menu::App => "Retro IDE"@,
            Menu::File => "File"@,
            Menu::Edit => "Edit"@,
        }
    }

    /// The lines of the menu, from the top.
    pub open spec fn lines(self) -> Seq<MenuEntry> {
        match self {
            Menu::App => seq![MenuEntry::About, MenuEntry::Separator, MenuEntry::Quit],
            Menu::File => seq![
                MenuEntry::Command(MenuCommand::OpenProject),
                MenuEntry::Command(MenuCommand::CloseProject),
                MenuEntry::Separator,
                MenuEntry::Command(MenuCommand::SaveFile),
            ],
            Menu::Edit => seq![
                MenuEntry::Command(MenuCommand::Undo),
                MenuEntry::Command(MenuCommand::Redo),
                MenuEntry::Separator,
                MenuEntry::Command(MenuCommand::Cut),
                MenuEntry::Command(MenuCommand::Copy),
                MenuEntry::Command(MenuCommand::Paste),
                MenuEntry::Separator,
                MenuEntry::Command(MenuCommand::SelectAll),
            ],
        }
    }

    pub fn title(self) -> (r: &'static str)
        ensures
            r@ == self.title_text(),
    {
        match self {
            Menu::App => "Retro IDE",
            Menu::File => "File",
            Menu::Edit => "Edit",
        }
    }

    pub fn entries(self) -> (r: Vec<MenuEntry>)
        ensures
            r@ == self.lines(),
    {
        let r = match self {
            Menu::App => vec![MenuEntry::About, MenuEntry::Separator, MenuEntry::Quit],
            Menu::File => vec![
                MenuEntry::Command(MenuCommand::OpenProject),
                MenuEntry::Command(MenuCommand::CloseProject),
                MenuEntry::Separator,
                MenuEntry::Command(MenuCommand::SaveFile),
            ],
            Menu::Edit => vec![
                MenuEntry::Command(MenuCommand::Undo),
                MenuEntry::Command(MenuCommand::Redo),
                MenuEntry::Separator,
                MenuEntry::Command(MenuCommand::Cut),
                MenuEntry::Command(MenuCommand::Copy),
                MenuEntry::Command(MenuCommand::Paste),
                MenuEntry::Separator,
                MenuEntry::Command(MenuCommand::SelectAll),
            ],
        };
        assert(r@ =~= self.lines());
        r
    }
}

/// The menus of the menu bar, from the left.
pub fn menu_bar() -> (r: Vec<Menu>)
    ensures
        r@ == seq![Menu::App, Menu::File, Menu::Edit],
{
    let r = vec![Menu::App, Menu::File, Menu::Edit];
    assert(r@ =~= seq![Menu::App, Menu::File, Menu::Edit]);
    r
}

/// Makes known what each identifier spells.
proof fn reveal_ids()
    ensures
        "open_project"@.len() == 12 && "open_project"@[0] == 'o',
        "close_project"@.len() == 13,
        "save_file"@.len() == 9,
        "undo"@.len() == 4 && "undo"@[0] == 'u',
        "redo"@.len() == 4 && "redo"@[0] == 'r',
        "cut"@.len() == 3,
        "copy"@.len() == 4 && "copy"@[0] == 'c',
        "paste"@.len() == 5 && "paste"@[0] == 'p',
        "select_all"@.len() == 10,
        "about"@.len() == 5 && "about"@[0] == 'a',
{
    reveal_strlit("open_project");
    reveal_strlit("close_project");
    reveal_strlit("save_file");
    reveal_strlit("undo");
    reveal_strlit("redo");
    reveal_strlit("cut");
    reveal_strlit("copy");
    reveal_strlit("paste");
    reveal_strlit("select_all");
    reveal_strlit("about");
}

/// No two commands share an identifier, so the identifier of a command
/// leads back to that command and to its notification.
pub proof fn lemma_id_names_command(c: MenuCommand)
    ensures
        command_of(c.id_text()) == Some(c),
{
    reveal_ids();
}

/// Commands with the same identifier are the same command.
pub proof fn lemma_ids_distinct(a: MenuCommand, b: MenuCommand)
    requires
        a.id_text() == b.id_text(),
    ensures
        a == b,
{
    lemma_id_names_command(a);
    lemma_id_names_command(b);
}

/// The item that tells about the application has the identifier of no
/// command: a click on it raises nothing.
pub proof fn lemma_about_raises_nothing()
    ensures
        command_of(ABOUT_ID@) is None,
{
    reveal_ids();
}

/// Every command stands in exactly one of the File and Edit menus.
pub proof fn lemma_command_has_a_place(c: MenuCommand)
    ensures
        Menu::File.lines().contains(MenuEntry::Command(c)) != Menu::Edit.lines().contains(
            MenuEntry::Command(c),
        ),
        !Menu::App.lines().contains(MenuEntry::Command(c)),
{
    let file = Menu::File.lines();
    let edit = Menu::Edit.lines();
    match c {
        MenuCommand::OpenProject => { assert(file[0] == MenuEntry::Command(c)); },
        MenuCommand::CloseProject => { assert(file[1] == MenuEntry::Command(c)); },
        MenuCommand::SaveFile => { assert(file[3] == MenuEntry::Command(c)); },
        MenuCommand::Undo => { assert(edit[0] == MenuEntry::Command(c)); },
        MenuCommand::Redo => { assert(edit[1] == MenuEntry::Command(c)); },
        MenuCommand::Cut => { assert(edit[3] == MenuEntry::Command(c)); },
        MenuCommand::Copy => { assert(edit[4] == MenuEntry::Command(c)); },
        MenuCommand::Paste => { assert(edit[5] == MenuEntry::Command(c)); },
        MenuCommand::SelectAll => { assert(edit[7] == MenuEntry::Command(c)); },
    }
}

} // verus!
