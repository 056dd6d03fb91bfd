//! The tray icon of the desktop shell: what its menu offers, and what a click
//! on the icon or on an entry of the menu does to the main window.

use vstd::prelude::*;

verus! {

/// An entry of the tray menu.
#[derive(Debug)]
pub enum MenuEntry {
    /// An item with the title that is shown and the id that a click reports.
    Item { title: String, id: String },
    /// A line between two groups of items.
    Separator,
}

/// An entry of the tray menu as a mathematical value.
pub enum MenuEntryView {
    Item { title: Seq<char>, id: Seq<char> },
    Separator,
}

impl View for MenuEntry {
    type V = MenuEntryView;

    open spec fn view(&self) -> MenuEntryView {
        match self {
            MenuEntry::Item { title, id } => MenuEntryView::Item { title: title@, id: id@ },
            MenuEntry::Separator => MenuEntryView::Separator,
        }
    }
}

/// The views of a sequence of menu entries.
pub open spec fn entry_views(entries: Seq<MenuEntry>) -> Seq<MenuEntryView> {
    entries.map_values(|entry: MenuEntry| entry@)
}

/// Something that happened to the tray icon.
#[derive(Debug)]
pub enum TrayEvent {
    /// The menu item with this id was clicked.
    MenuItemClick(String),
    /// The icon was clicked with the left button, while the main window was
    /// visible or not.
    LeftClick { visible: bool },
    /// Anything else.
    Other,
}

/// A tray event as a mathematical value.
pub enum TrayEventView {
    MenuItemClick(Seq<char>),
    LeftClick { visible: bool },
    Other,
}

impl View for TrayEvent {
    type V = TrayEventView;

    open spec fn view(&self) -> TrayEventView {
        match self {
            TrayEvent::MenuItemClick(id) => TrayEventView::MenuItemClick(id@),
            TrayEvent::LeftClick { visible } => TrayEventView::LeftClick { visible: *visible },
            TrayEvent::Other => TrayEventView::Other,
        }
    }
}

/// What is done in answer to a tray event.
#[derive(Clone, Copy, Debug, PartialEq, Eq, Structural)]
pub enum TrayAction {
    /// Show the main window and give it the focus.
    ShowAndFocus,
    /// Hide the main window.
    Hide,
    /// End the application.
    Quit,
    /// Do nothing.
    Nothing,
}

/// The tray menu: show, hide, a separator, quit.
pub open spec fn menu() -> Seq<MenuEntryView> {
    seq![
        MenuEntryView::Item { title: "Show"@, id: "show"@ },
        MenuEntryView::Item { title: "Hide"@, id: "hide"@ },
        MenuEntryView::Separator,
        MenuEntryView::Item { title: "Quit"@, id: "quit"@ },
    ]
}

/// What a tray event does: the menu items show the window, hide it and end
/// the application; a left click on the icon hides a visible window and shows
/// a hidden one; nothing else does anything.
pub open spec fn action_of(event: TrayEventView) -> TrayAction {
    match event {
        TrayEventView::MenuItemClick(id) => if id == "show"@ {
            TrayAction::ShowAndFocus
        } else if id == "hide"@ {
            TrayAction::Hide
        } else if id == "quit"@ {
            TrayAction::Quit
        } else {
            TrayAction::Nothing
        },
        TrayEventView::LeftClick { visible } => if visible {
            TrayAction::Hide
        } else {
            TrayAction::ShowAndFocus
        },
        TrayEventView::Other => TrayAction::Nothing,
    }
}

/// The ids of the three menu items differ from each other.
pub proof fn lemma_menu_ids_differ()
    ensures
        "show"@ != "hide"@,
        "show"@ != "quit"@,
        "hide"@ != "quit"@,
{
    reveal_strlit("show");
    reveal_strlit("hide");
    reveal_strlit("quit");
    assert("show"@[0] == 's');
    assert("hide"@[0] == 'h');
    assert("quit"@[0] == 'q');
}

/// Every item of the menu does something, and each something else.
pub proof fn law_every_menu_item_acts()
    ensures
        action_of(TrayEventView::MenuItemClick(menu()[0]->id)) == TrayAction::ShowAndFocus,
        action_of(TrayEventView::MenuItemClick(menu()[1]->id)) == TrayAction::Hide,
        menu()[2] is Separator,
        action_of(TrayEventView::MenuItemClick(menu()[3]->id)) == TrayAction::Quit,
{
    lemma_menu_ids_differ();
}

/// The entries of the tray menu, in the order in which they are shown.
pub fn tray_menu() -> (entries: Vec<MenuEntry>)
    ensures
        entry_views(entries@) == menu(),
{
    let mut entries: Vec<MenuEntry> = Vec::new();
    entries.push(MenuEntry::Item { title: "Show".to_string(), id: "show".to_string() });
    entries.push(MenuEntry::Item { title: "Hide".to_string(), id: "hide".to_string() });
    entries.push(MenuEntry::Separator);
    entries.push(MenuEntry::Item { title: "Quit".to_string(), id: "quit".to_string() });
    assert(entry_views(entries@) =~= menu());
    entries
}

/// What is done in answer to a tray event; see [`action_of`].
pub fn tray_action(event: &TrayEvent) -> (action: TrayAction)
    ensures
        action == action_of(event@),
{
    proof {
        lemma_menu_ids_differ();
    }
    match event {
        TrayEvent::MenuItemClick(id) => {
            if *id == "show".to_string() {
                TrayAction::ShowAndFocus
            } else if *id == "hide".to_string() {
                TrayAction::Hide
            } else if *id == "quit".to_string() {
                TrayAction::Quit
            } else {
                TrayAction::Nothing
            }
        },
        TrayEvent::LeftClick { visible } => {
            if *visible {
                TrayAction::Hide
            } else {
                TrayAction::ShowAndFocus
            }
        },
        TrayEvent::Other => TrayAction::Nothing,
    }
}

} // verus!
