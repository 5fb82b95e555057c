use scrap_wayland::errors::DBusFault;
use scrap_wayland::stage::{
    dbus_stage_err, handle_response, handle_step_error, stage_err, PortalStage, PortalTrace,
};

#[test]
fn stage_err_keeps_the_detail_safe_for_a_placeholder() {
    assert_eq!(
        stage_err("start", "declined", ""),
        "wl-stage:start:declined:"
    );
    // Braces of its own would break the placeholder lookup on the peer.
    assert_eq!(
        stage_err("create-session", "dbus", "org.freedesktop.{Error}"),
        "wl-stage:create-session:dbus:org.freedesktop.Error"
    );
    assert_eq!(
        stage_err("select-sources", "internal", "one\ntwo"),
        "wl-stage:select-sources:internal:one two"
    );
    assert_eq!(
        stage_err("start", "internal", &"x".repeat(300)),
        format!("wl-stage:start:internal:{}", "x".repeat(200))
    );
}

#[test]
fn stage_err_agrees_with_std_on_every_character() {
    for c in (0..=0x10ffffu32).filter_map(char::from_u32) {
        let detail = format!("{c}a{c}");
        let expected: String = detail
            .chars()
            .map(|c| if c.is_control() { ' ' } else { c })
            .filter(|c| *c != '{' && *c != '}')
            .take(200)
            .collect();
        assert_eq!(
            stage_err("s", "k", &detail),
            format!("wl-stage:s:k:{}", expected.trim())
        );
    }
}

#[test]
fn stage_err_cuts_before_it_trims() {
    let detail = format!("{}{}", " ".repeat(199), "ab");
    assert_eq!(stage_err("start", "ended", &detail), "wl-stage:start:ended:a");
}

#[test]
fn stage_err_takes_its_own_detail_over() {
    let detail = " one\t{two}\u{85} ";
    let tag = stage_err("start", "dbus", detail);
    assert_eq!(tag, "wl-stage:start:dbus:one two");
    assert_eq!(stage_err("start", "dbus", "one two"), tag);
}

fn fault(name: Option<&str>, message: Option<&str>) -> DBusFault {
    DBusFault {
        name: name.map(str::to_owned),
        message: message.map(str::to_owned),
    }
}

#[test]
fn dbus_stage_err_carries_name_and_message() {
    let both = fault(Some("org.freedesktop.DBus.Error.Failed"), Some("no backend"));
    assert_eq!(
        dbus_stage_err("start", &both),
        "wl-stage:start:dbus:org.freedesktop.DBus.Error.Failed: no backend"
    );
    assert_eq!(
        dbus_stage_err("start", &fault(Some("a.b"), None)),
        "wl-stage:start:dbus:a.b"
    );
    assert_eq!(
        dbus_stage_err("start", &fault(Some("a.b"), Some(""))),
        "wl-stage:start:dbus:a.b"
    );
    assert_eq!(
        dbus_stage_err("start", &fault(None, Some("m"))),
        "wl-stage:start:dbus:m"
    );
    assert_eq!(
        dbus_stage_err("start", &fault(Some(""), Some("m"))),
        "wl-stage:start:dbus:m"
    );
    assert_eq!(dbus_stage_err("start", &fault(None, None)), "wl-stage:start:dbus:");
}

#[test]
fn unknown_methods_are_unsupported() {
    for name in [
        "org.freedesktop.DBus.Error.UnknownMethod",
        "org.freedesktop.DBus.Error.UnknownInterface",
    ] {
        assert_eq!(
            dbus_stage_err("select-sources", &fault(Some(name), None)),
            format!("wl-stage:select-sources:unsupported:{name}")
        );
    }
}

#[test]
fn stages_are_found_by_their_numbers() {
    let stages = [
        (PortalStage::CreateSession, 1u8, "create-session"),
        (PortalStage::SelectDevices, 2, "select-devices"),
        (PortalStage::SelectSources, 3, "select-sources"),
        (PortalStage::Start, 4, "start"),
        (PortalStage::OpenPipeWireRemote, 5, "open-pipewire-remote"),
    ];
    for (stage, number, name) in stages {
        assert_eq!(stage.to_u8(), number);
        assert_eq!(stage.as_str(), name);
        assert_eq!(PortalStage::from_u8(number), stage);
    }
    assert_eq!(PortalStage::from_u8(0), PortalStage::CreateSession);
    assert_eq!(PortalStage::from_u8(77), PortalStage::CreateSession);
}

#[test]
fn first_failure_stays_on_record() {
    let mut trace = PortalTrace::new();
    assert_eq!(trace.waiting_stage(), PortalStage::CreateSession);
    trace.waiting(PortalStage::Start);
    assert_eq!(trace.waiting_stage(), PortalStage::Start);
    trace.fail(PortalStage::Start, "ended", "");
    trace.fail(PortalStage::CreateSession, "declined", "");
    trace.record("later".to_owned());
    assert!(trace.failed);
    assert_eq!(trace.take_reason().as_deref(), Some("wl-stage:start:ended:"));
    assert_eq!(trace.take_reason(), None);
}

#[test]
fn response_codes_fail_their_stage() {
    for (code, tag) in [
        (1u32, "wl-stage:select-devices:declined:"),
        (2, "wl-stage:select-devices:ended:"),
        (3, "wl-stage:select-devices:portal-error:3"),
        (u32::MAX, "wl-stage:select-devices:portal-error:4294967295"),
    ] {
        let mut trace = PortalTrace::new();
        assert!(!handle_response(&mut trace, PortalStage::SelectDevices, code));
        assert!(trace.failed);
        assert_eq!(trace.reason.as_deref(), Some(tag));
    }
    let mut trace = PortalTrace::new();
    assert!(handle_response(&mut trace, PortalStage::SelectDevices, 0));
    assert!(!trace.failed);
    assert_eq!(trace.reason, None);
}

#[test]
fn step_errors_keep_tags_and_wrap_the_rest() {
    let mut trace = PortalTrace::new();
    trace.waiting(PortalStage::SelectSources);
    handle_step_error(&mut trace, "wl-stage:start:dbus:x {y}".to_owned());
    assert_eq!(trace.reason.as_deref(), Some("wl-stage:start:dbus:x {y}"));

    let mut trace = PortalTrace::new();
    trace.waiting(PortalStage::SelectSources);
    handle_step_error(&mut trace, "x {y}".to_owned());
    assert!(trace.failed);
    assert_eq!(
        trace.reason.as_deref(),
        Some("wl-stage:select-sources:internal:x y")
    );
}
