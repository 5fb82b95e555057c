use scrap_wayland::choice::{list_command, lists_server, process_list_command, PortalChoice};

#[test]
fn processes_are_listed_by_the_lower_case_name() {
    assert_eq!(process_list_command("RustDesk"), "ps aux | grep rustdesk");
    assert_eq!(process_list_command("\u{c4}pp"), "ps aux | grep \u{e4}pp");
    assert_eq!(list_command("x"), "ps aux | grep x");
    let ascii: String = (0..128u8).map(char::from).collect();
    assert_eq!(
        process_list_command(&ascii),
        format!("ps aux | grep {}", ascii.to_ascii_lowercase())
    );
}

#[test]
fn server_is_found_in_a_listing() {
    assert!(lists_server("root 1 /usr/bin/rustdesk --server\n", "rustdesk"));
    assert!(!lists_server("root 1 /usr/bin/rustdesk --service\n", "rustdesk"));
    assert!(!lists_server("", "rustdesk"));
    assert!(lists_server(" --server", ""));
}

#[test]
fn server_state_is_remembered_from_a_listing() {
    let mut choice = PortalChoice::new();
    assert!(choice.asks_processes());
    assert!(!choice.is_server_running(None, "RustDesk"));
    assert!(choice.asks_processes());
    let listing = b"1 rustdesk --server \xff\n";
    assert!(choice.is_server_running(Some(listing), "RustDesk"));
    assert!(!choice.asks_processes());
    assert!(choice.is_server_running(Some(b"nothing"), "RustDesk"));
    assert!(choice.is_server_running(None, "RustDesk"));

    let mut other = PortalChoice::new();
    assert!(!other.is_server_running(Some(b"nothing"), "RustDesk"));
    assert!(!other.is_server_running(Some(listing), "RustDesk"));
}

#[test]
fn listing_is_read_as_utf8() {
    let mut choice = PortalChoice::new();
    assert!(choice.is_server_running(Some("\u{e4}pp --server".as_bytes()), "\u{c4}PP"));
}

#[test]
fn remote_desktop_needs_device_types() {
    for (types, expected) in [(Some(7), true), (Some(0), false), (None, false)] {
        let mut choice = PortalChoice::new();
        assert!(choice.asks_device_types(false));
        assert_eq!(choice.can_use_remote_desktop_portal(false, types), expected);
        assert_eq!(choice.use_remote_desktop, Some(expected));
        assert!(!choice.asks_device_types(false));
        // The choice is remembered.
        assert_eq!(choice.can_use_remote_desktop_portal(false, Some(1)), expected);
        assert_eq!(choice.can_use_remote_desktop_portal(false, None), expected);
        assert_eq!(choice.can_use_remote_desktop_portal_cached(true), expected);
    }
}

#[test]
fn running_server_rules_out_remote_desktop() {
    let mut choice = PortalChoice::new();
    assert!(choice.can_use_remote_desktop_portal(false, Some(3)));
    assert!(!choice.asks_device_types(true));
    assert!(!choice.can_use_remote_desktop_portal(true, Some(3)));
    assert_eq!(choice.use_remote_desktop, Some(false));
    assert!(!choice.can_use_remote_desktop_portal(false, Some(3)));
}

#[test]
fn unmade_choice_depends_on_the_server() {
    let choice = PortalChoice::new();
    assert!(choice.asks_server());
    assert!(choice.can_use_remote_desktop_portal_cached(false));
    assert!(!choice.can_use_remote_desktop_portal_cached(true));
}
