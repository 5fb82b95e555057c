use scrap_wayland::request_path::get_request_path;

#[test]
fn request_path_is_made_of_name_and_token() {
    assert_eq!(
        get_request_path(":1.42", "u1").unwrap(),
        "/org/freedesktop/portal/desktop/request/1_42/u1"
    );
    assert_eq!(
        get_request_path("::a.b.c", "u3").unwrap(),
        "/org/freedesktop/portal/desktop/request/a_b_c/u3"
    );
}

#[test]
fn request_path_refuses_what_the_bus_refuses() {
    for (name, token) in [
        (":1.4-2", "u1"),
        (":", "u1"),
        (":1.4", ""),
        (":1.4", "u/"),
        (":1.4", "u 1"),
        (":1.4", "\u{e4}"),
        (":1:4", "u1"),
    ] {
        let fault = get_request_path(name, token).unwrap_err();
        assert_eq!(
            fault.name.as_deref(),
            Some("org.freedesktop.DBus.Error.Failed")
        );
        assert_eq!(
            fault.message.as_deref(),
            Some("Failed to construct portal request path")
        );
        assert_eq!(fault.to_text(), "Failed to construct portal request path");
    }
}

#[test]
fn request_path_agrees_with_the_grammar() {
    let parts = ["", "a", "Z9_", "/", "a/b", "//", "a/", "/a", "-", ".", ":", "a.b"];
    for name in parts {
        for token in parts {
            let sender = name.trim_start_matches(':').replace('.', "_");
            let path = format!("/org/freedesktop/portal/desktop/request/{sender}/{token}");
            let valid = path[1..]
                .split('/')
                .all(|e| !e.is_empty() && e.chars().all(|c| c == '_' || c.is_ascii_alphanumeric()));
            let made = get_request_path(name, token);
            assert_eq!(made.is_ok(), valid, "{path}");
            if let Ok(p) = made {
                assert_eq!(p, path);
            }
        }
    }
}
