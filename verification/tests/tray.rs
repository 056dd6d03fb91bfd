use nova_sync::tray::tray_action;
use nova_sync::tray::tray_menu;
use nova_sync::tray::MenuEntry;
use nova_sync::tray::TrayAction;
use nova_sync::tray::TrayEvent;

fn click(id: &str) -> TrayEvent {
    TrayEvent::MenuItemClick(id.to_string())
}

#[test]
fn tray_menu_offers_show_hide_and_quit() {
    let entries = tray_menu();
    assert_eq!(entries.len(), 4);
    match &entries[0] {
        MenuEntry::Item { title, id } => {
            assert_eq!(title, "Show");
            assert_eq!(id, "show");
        },
        other => panic!("the first entry should be an item, got {:?}", other),
    }
    match &entries[1] {
        MenuEntry::Item { title, id } => {
            assert_eq!(title, "Hide");
            assert_eq!(id, "hide");
        },
        other => panic!("the second entry should be an item, got {:?}", other),
    }
    assert!(matches!(entries[2], MenuEntry::Separator));
    match &entries[3] {
        MenuEntry::Item { title, id } => {
            assert_eq!(title, "Quit");
            assert_eq!(id, "quit");
        },
        other => panic!("the last entry should be an item, got {:?}", other),
    }
}

#[test]
fn menu_items_show_hide_and_quit() {
    assert_eq!(tray_action(&click("show")), TrayAction::ShowAndFocus);
    assert_eq!(tray_action(&click("hide")), TrayAction::Hide);
    assert_eq!(tray_action(&click("quit")), TrayAction::Quit);
}

#[test]
fn every_item_of_the_menu_does_something() {
    for entry in tray_menu() {
        if let MenuEntry::Item { id, .. } = entry {
            assert_ne!(tray_action(&TrayEvent::MenuItemClick(id)), TrayAction::Nothing);
        }
    }
}

#[test]
fn unknown_menu_items_do_nothing() {
    assert_eq!(tray_action(&click("")), TrayAction::Nothing);
    assert_eq!(tray_action(&click("Show")), TrayAction::Nothing);
    assert_eq!(tray_action(&click("shows")), TrayAction::Nothing);
    assert_eq!(tray_action(&click("exit")), TrayAction::Nothing);
    assert_eq!(tray_action(&TrayEvent::Other), TrayAction::Nothing);
}

#[test]
fn left_click_toggles_the_window() {
    assert_eq!(tray_action(&TrayEvent::LeftClick { visible: true }), TrayAction::Hide);
    assert_eq!(tray_action(&TrayEvent::LeftClick { visible: false }), TrayAction::ShowAndFocus);
}
