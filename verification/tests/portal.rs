use scrap_wayland::portal::{ArgValue, PortalRequest};
use scrap_wayland::stage::PortalStage;

fn args(r: &PortalRequest) -> String {
    let parts: Vec<String> = r
        .args
        .iter()
        .map(|(k, v)| match v {
            ArgValue::Text(s) => format!("{k}={s}"),
            ArgValue::Flag(b) => format!("{k}={b}"),
            ArgValue::Number(n) => format!("{k}={n}"),
        })
        .collect();
    parts.join(" ")
}

#[test]
fn requests_carry_their_arguments() {
    for remote in [false, true] {
        let r = PortalRequest::create_session(remote);
        assert_eq!(r.stage, PortalStage::CreateSession);
        assert_eq!((r.remote_desktop, r.handle_token.as_str()), (remote, "u1"));
        assert_eq!(args(&r), "session_handle_token=u1 handle_token=u1");

        let r = PortalRequest::start(remote);
        assert_eq!(r.stage, PortalStage::Start);
        assert_eq!((r.remote_desktop, r.handle_token.as_str()), (remote, "u4"));
        assert_eq!(args(&r), "handle_token=u4");
    }
    let r = PortalRequest::select_devices();
    assert_eq!(r.stage, PortalStage::SelectDevices);
    assert!(r.remote_desktop);
    assert_eq!(r.handle_token, "u2");
    assert_eq!(args(&r), "handle_token=u2 types=7");
}

#[test]
fn sources_are_selected_with_what_is_known() {
    for (restore, embedded, expected) in [
        (None, false, "handle_token=u3 multiple=true types=1"),
        (
            Some(""),
            false,
            "persist_mode=2 handle_token=u3 multiple=true types=1",
        ),
        (
            Some("tok"),
            true,
            "restore_token=tok persist_mode=2 handle_token=u3 multiple=true types=1 cursor_mode=2",
        ),
    ] {
        let r = PortalRequest::select_sources(restore, embedded);
        assert_eq!(r.stage, PortalStage::SelectSources);
        assert!(!r.remote_desktop);
        assert_eq!(r.handle_token, "u3");
        assert_eq!(args(&r), expected);
    }
}

#[test]
fn remote_desktop_has_a_single_source() {
    assert_eq!(
        args(&PortalRequest::select_more_sources(true)),
        "handle_token=u3 types=1"
    );
    assert_eq!(
        args(&PortalRequest::select_more_sources(false)),
        "handle_token=u3 multiple=true types=1"
    );
}
