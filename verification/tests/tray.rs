use freeyourdisk::tray::{popover_position, registers_shortcut, tray_action, tray_menu, TrayAction};

#[test]
fn tray_menu_entries_and_their_actions() {
    let ids: Vec<&str> = tray_menu().iter().map(|e| e.0).collect();
    assert_eq!(ids, vec!["summary", "open", "quit"]);
    assert_eq!(tray_menu()[0].1, "Résumé de l'espace");
    assert_eq!(tray_action("summary"), Some(TrayAction::Summary));
    assert_eq!(tray_action("open"), Some(TrayAction::Open));
    assert_eq!(tray_action("quit"), Some(TrayAction::Quit));
    assert_eq!(tray_action("other"), None);
}

#[test]
fn popover_opens_bottom_right_within_margins() {
    // 1920x1080 monitor at the origin, default-sized popover.
    assert_eq!(popover_position((0, 0), (1920, 1080), None), (1920 - 320 - 12, 1080 - 470 - 56));
    // Second monitor to the right, reported window size.
    assert_eq!(popover_position((1920, 0), (1280, 800), Some((300, 400))), (1920 + 1280 - 300 - 12, 800 - 400 - 56));
    // A popover larger than the monitor is clamped to the top-left margin.
    assert_eq!(popover_position((0, 0), (200, 300), None), (12, 12));
}

#[test]
fn blank_hotkey_is_not_registered() {
    assert!(registers_shortcut("Ctrl+Alt+Delete"));
    assert!(!registers_shortcut("   "));
    assert!(!registers_shortcut(""));
}
