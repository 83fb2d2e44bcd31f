use authdog_cli::keys::{
    key_action, line_to_submit, opens_command, page_scroll, palette_cycle, rect_contains,
    synced_selection, wheel_scroll, KeyAction, KeyContext, ShellKey,
};

fn ctx() -> KeyContext {
    KeyContext {
        palette_open: false,
        palette_len: 0,
        input_starts_with_slash: false,
        listing_open: false,
        browse_open: false,
        whoami_open: false,
        status_shown: false,
    }
}

#[test]
fn esc_steps_back_then_quits() {
    let mut c = ctx();
    assert_eq!(key_action(ShellKey::Esc, c), KeyAction::Quit);
    c.browse_open = true;
    assert_eq!(key_action(ShellKey::Esc, c), KeyAction::BrowseBack);
    c.browse_open = false;
    c.listing_open = true;
    assert_eq!(key_action(ShellKey::Esc, c), KeyAction::CloseListing);
    c.palette_open = true;
    c.palette_len = 2;
    c.input_starts_with_slash = true;
    assert_eq!(key_action(ShellKey::Esc, c), KeyAction::ClearInput);
}

#[test]
fn arrows_go_to_the_active_list() {
    let mut c = ctx();
    assert_eq!(key_action(ShellKey::Down, c), KeyAction::Type);
    c.palette_open = true;
    c.palette_len = 3;
    assert_eq!(key_action(ShellKey::Down, c), KeyAction::PaletteMove { down: true });
    c.browse_open = true;
    assert_eq!(key_action(ShellKey::Up, c), KeyAction::PaletteMove { down: false });
    c.palette_len = 0;
    assert_eq!(key_action(ShellKey::Up, c), KeyAction::BrowseMove { down: false });
    assert_eq!(key_action(ShellKey::Other, c), KeyAction::Ignore);
    assert_eq!(key_action(ShellKey::Enter, c), KeyAction::BrowseEnter);
}

#[test]
fn tab_toggles_whoami_or_cycles_palette() {
    let mut c = ctx();
    c.whoami_open = true;
    assert_eq!(key_action(ShellKey::Tab, c), KeyAction::ToggleWhoamiTab);
    c.palette_open = true;
    c.palette_len = 2;
    assert_eq!(key_action(ShellKey::Tab, c), KeyAction::PaletteCycle { forward: true });
    c.palette_len = 1;
    assert_eq!(key_action(ShellKey::Tab, c), KeyAction::Type);
    assert_eq!(key_action(ShellKey::BackTab, c), KeyAction::PaletteCycle { forward: false });
    assert_eq!(palette_cycle(Some(1), 2, true), 0);
    assert_eq!(palette_cycle(None, 3, true), 1);
    assert_eq!(palette_cycle(Some(0), 3, false), 2);
    assert_eq!(palette_cycle(Some(2), 3, false), 1);
}

#[test]
fn scrolling_keys_and_wheel() {
    let mut c = ctx();
    assert_eq!(key_action(ShellKey::PageDown, c), KeyAction::Type);
    c.status_shown = true;
    assert_eq!(key_action(ShellKey::PageDown, c), KeyAction::ScrollPageDown);
    assert_eq!(key_action(ShellKey::Home, c), KeyAction::ScrollHome);
    assert_eq!(page_scroll(5, 0, true, 100), 17);
    assert_eq!(page_scroll(5, 10, true, 12), 12);
    assert_eq!(page_scroll(5, 10, false, 12), 0);
    assert_eq!(wheel_scroll(10, true, 20, 50, c, true), Some(6));
    assert_eq!(wheel_scroll(10, false, 20, 50, c, true), Some(14));
    assert_eq!(wheel_scroll(10, false, 20, 50, c, false), None);
    c.listing_open = true;
    assert_eq!(wheel_scroll(10, false, 20, 50, c, true), None);
}

#[test]
fn selections_and_submitted_line() {
    assert_eq!(synced_selection(Some(5), 3), Some(0));
    assert_eq!(synced_selection(Some(2), 3), Some(2));
    assert_eq!(synced_selection(None, 0), None);
    let idxs = vec![4usize, 5];
    assert_eq!(line_to_submit("/ten", Some(&idxs), Some(1)), "/tenant");
    assert_eq!(line_to_submit("/ten", Some(&idxs), None), "/ten");
    let one = vec![0usize];
    assert_eq!(line_to_submit(" /he ", Some(&one), None), "/help");
    assert_eq!(line_to_submit("  hi  ", None, None), "hi");
    assert!(opens_command("  /x"));
    assert!(!opens_command("x/"));
    assert!(rect_contains(2, 2, 3, 3, 4, 4));
    assert!(!rect_contains(2, 2, 3, 3, 5, 4));
    assert!(rect_contains(65530, 0, 10, 1, 65534, 0));
}
