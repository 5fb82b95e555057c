use scrap_wayland::errors::DBusFault;
use scrap_wayland::handshake::{PortalAction, PortalEvent, PortalHandshake};
use scrap_wayland::portal::ArgValue;
use scrap_wayland::reply::{Arg, Reply};
use scrap_wayland::stage::PortalStage;

fn nothing() -> Arg {
    Arg {
        as_u64: None,
        as_i64: None,
        as_str: None,
        items: None,
    }
}

fn number(n: i64) -> Arg {
    Arg {
        as_u64: u64::try_from(n).ok(),
        as_i64: Some(n),
        ..nothing()
    }
}

fn text(s: &str) -> Arg {
    Arg {
        as_str: Some(s.to_owned()),
        ..nothing()
    }
}

fn list(items: Vec<Arg>) -> Arg {
    Arg {
        items: Some(items),
        ..nothing()
    }
}

fn reply(results: Vec<(&str, Arg)>) -> Reply {
    Reply {
        results: results.into_iter().map(|(k, v)| (k.to_owned(), v)).collect(),
    }
}

fn answer(stage: PortalStage, code: u32, results: Vec<(&str, Arg)>) -> PortalEvent {
    PortalEvent::Response {
        stage,
        code,
        reply: reply(results),
        reply_text: "R".to_owned(),
    }
}

fn session() -> PortalEvent {
    answer(PortalStage::CreateSession, 0, vec![("session_handle", text("/s/1"))])
}

fn streams() -> Arg {
    let pair = |a, b| list(vec![list(vec![number(a), number(b)])]);
    let attributes = list(vec![
        text("size"),
        pair(800, 600),
        text("position"),
        pair(3, 4),
    ]);
    list(vec![list(vec![list(vec![number(41), attributes])])])
}

fn fault(message: &str) -> DBusFault {
    DBusFault {
        name: Some("a.b".to_owned()),
        message: Some(message.to_owned()),
    }
}

/// The action in short.
fn short(action: &PortalAction) -> String {
    match action {
        PortalAction::Subscribe {
            stage,
            handle_token,
        } => format!("Subscribe {} {handle_token}", stage.as_str()),
        PortalAction::Call(r) => {
            let args: Vec<String> = r
                .args
                .iter()
                .map(|(k, v)| match v {
                    ArgValue::Text(s) => format!("{k}={s}"),
                    ArgValue::Flag(b) => format!("{k}={b}"),
                    ArgValue::Number(n) => format!("{k}={n}"),
                })
                .collect();
            let portal = if r.remote_desktop { "remote" } else { "cast" };
            format!("Call {} {portal} {}", r.stage.as_str(), args.join(" "))
        }
        other => format!("{other:?}"),
    }
}

fn portal(remote_desktop: bool) -> PortalEvent {
    PortalEvent::Portal { remote_desktop }
}

/// Takes each event and compares the action.
fn drive(h: &mut PortalHandshake, steps: Vec<(PortalEvent, &str)>) {
    for (event, expected) in steps {
        assert_eq!(short(&h.step(event)), expected);
    }
}

/// Up to the answered request for a session.
fn with_session(version: Option<u32>, cursor: bool, remote: bool) -> PortalHandshake {
    let mut h = PortalHandshake::new(version, cursor);
    assert_eq!(short(&h.begin()), "Subscribe create-session u1");
    let call = if remote {
        "Call create-session remote session_handle_token=u1 handle_token=u1"
    } else {
        "Call create-session cast session_handle_token=u1 handle_token=u1"
    };
    drive(
        &mut h,
        vec![
            (PortalEvent::Subscribed, "ChoosePortal"),
            (portal(remote), call),
            (PortalEvent::Called, "Wait"),
            (session(), "ChoosePortal"),
        ],
    );
    h
}

/// Up to the answered request to start, through the screen cast portal without tokens.
fn started(results: Vec<(&str, Arg)>) -> PortalHandshake {
    let mut h = with_session(None, false, false);
    drive(
        &mut h,
        vec![
            (portal(false), "Subscribe select-sources u3"),
            (
                PortalEvent::Subscribed,
                "Call select-sources cast handle_token=u3 multiple=true types=1",
            ),
            (PortalEvent::Called, "Wait"),
            (answer(PortalStage::SelectSources, 0, vec![]), "Subscribe start u4"),
            (PortalEvent::Subscribed, "ChoosePortal"),
            (portal(false), "Call start cast handle_token=u4"),
            (PortalEvent::Called, "Wait"),
            (answer(PortalStage::Start, 0, results), "ChoosePortal"),
        ],
    );
    h
}

fn outcome(h: PortalHandshake) -> Result<(i32, String, usize, bool), String> {
    h.finish()
        .map(|g| (g.fd, g.session, g.streams.len(), g.is_support_restore_token))
}

#[test]
fn screen_cast_restores_and_stores_tokens() {
    let mut h = with_session(Some(4), true, false);
    drive(
        &mut h,
        vec![
            (portal(false), "ReadRestoreToken"),
            (PortalEvent::RestoreToken("old".to_owned()), "AskCursorModes"),
            (PortalEvent::CursorModes(Some(3)), "Subscribe select-sources u3"),
            (
                PortalEvent::Subscribed,
                "Call select-sources cast restore_token=old persist_mode=2 handle_token=u3 \
                 multiple=true types=1 cursor_mode=2",
            ),
            (PortalEvent::Called, "Wait"),
            (answer(PortalStage::SelectSources, 0, vec![]), "Subscribe start u4"),
            (PortalEvent::Subscribed, "ChoosePortal"),
            (portal(false), "Call start cast handle_token=u4"),
            (PortalEvent::Called, "Wait"),
            (
                answer(
                    PortalStage::Start,
                    0,
                    vec![("restore_token", text("new")), ("streams", streams())],
                ),
                "ChoosePortal",
            ),
            (portal(false), "SaveRestoreToken(\"new\")"),
            (PortalEvent::TokenSaved, "OpenRemote"),
        ],
    );
    assert!(h.poll_again());
    drive(&mut h, vec![(PortalEvent::RemoteOpened(9), "Wait")]);
    assert!(!h.poll_again());
    assert!(h.has_position);
    assert_eq!(outcome(h), Ok((9, "/s/1".to_owned(), 1, true)));
}

#[test]
fn remote_desktop_selects_devices_first() {
    let mut h = with_session(Some(5), false, true);
    drive(
        &mut h,
        vec![
            (portal(true), "Subscribe select-devices u2"),
            (
                PortalEvent::Subscribed,
                "Call select-devices remote handle_token=u2 types=7",
            ),
            (PortalEvent::Called, "Wait"),
            (answer(PortalStage::SelectDevices, 0, vec![]), "TellPortal"),
            (portal(true), "Subscribe select-sources u3"),
            (
                PortalEvent::Subscribed,
                "Call select-sources remote handle_token=u3 types=1",
            ),
            (PortalEvent::Called, "Wait"),
            (answer(PortalStage::SelectSources, 0, vec![]), "Subscribe start u4"),
            (PortalEvent::Subscribed, "ChoosePortal"),
            (portal(true), "Call start remote handle_token=u4"),
            (PortalEvent::Called, "Wait"),
            (
                answer(
                    PortalStage::Start,
                    0,
                    vec![("restore_token", text("new")), ("streams", streams())],
                ),
                "ChoosePortal",
            ),
            (portal(true), "OpenRemote"),
            (PortalEvent::RemoteOpened(2), "Wait"),
        ],
    );
    assert_eq!(outcome(h), Ok((2, "/s/1".to_owned(), 1, true)));
}

#[test]
fn old_portals_get_no_token() {
    for version in [None, Some(3)] {
        let mut h = with_session(version, true, false);
        drive(
            &mut h,
            vec![
                (portal(false), "AskCursorModes"),
                (PortalEvent::CursorModes(None), "Subscribe select-sources u3"),
                (
                    PortalEvent::Subscribed,
                    "Call select-sources cast handle_token=u3 multiple=true types=1",
                ),
            ],
        );
    }
    let mut h = started(vec![("restore_token", text("new")), ("streams", streams())]);
    drive(
        &mut h,
        vec![
            (portal(false), "OpenRemote"),
            (PortalEvent::RemoteOpened(1), "Wait"),
        ],
    );
    assert_eq!(outcome(h), Ok((1, "/s/1".to_owned(), 1, false)));
}

#[test]
fn empty_token_is_not_sent() {
    let mut h = with_session(Some(4), false, false);
    drive(
        &mut h,
        vec![
            (portal(false), "ReadRestoreToken"),
            (
                PortalEvent::RestoreToken(String::new()),
                "Subscribe select-sources u3",
            ),
            (
                PortalEvent::Subscribed,
                "Call select-sources cast persist_mode=2 handle_token=u3 multiple=true types=1",
            ),
        ],
    );
}

#[test]
fn declined_request_is_the_outcome() {
    for (code, tag) in [
        (1, "wl-stage:start:declined:"),
        (2, "wl-stage:start:ended:"),
        (7, "wl-stage:start:portal-error:7"),
    ] {
        let mut h = with_session(None, false, false);
        drive(&mut h, vec![(answer(PortalStage::Start, code, vec![]), "Wait")]);
        assert!(!h.poll_again());
        // Whatever follows is a consequence.
        drive(
            &mut h,
            vec![(answer(PortalStage::CreateSession, 2, vec![]), "Wait")],
        );
        assert_eq!(outcome(h), Err(tag.to_owned()));
    }
}

#[test]
fn session_needs_its_handle() {
    for (results, tag) in [
        (
            vec![],
            "wl-stage:create-session:internal:Failed to obtain session_handle from response: R",
        ),
        (
            vec![("session_handle", number(1))],
            "wl-stage:create-session:internal:Failed to convert session_handle to string.",
        ),
    ] {
        let mut h = PortalHandshake::new(None, false);
        h.begin();
        drive(
            &mut h,
            vec![(answer(PortalStage::CreateSession, 0, results), "Wait")],
        );
        assert!(!h.poll_again());
        assert_eq!(outcome(h), Err(tag.to_owned()));
    }
}

#[test]
fn failed_subscriptions_are_reported() {
    let mut h = PortalHandshake::new(None, false);
    h.begin();
    drive(&mut h, vec![(PortalEvent::SubscribeFailed(fault("m")), "Wait")]);
    assert!(!h.poll_again());
    assert_eq!(outcome(h), Err("wl-stage:create-session:dbus:a.b: m".to_owned()));

    let mut h = with_session(None, false, true);
    drive(
        &mut h,
        vec![
            (portal(true), "Subscribe select-devices u2"),
            (PortalEvent::SubscribeFailed(fault("m")), "Wait"),
        ],
    );
    assert_eq!(outcome(h), Err("wl-stage:select-devices:internal:m".to_owned()));

    let mut h = with_session(None, false, false);
    drive(
        &mut h,
        vec![
            (portal(false), "Subscribe select-sources u3"),
            (PortalEvent::Subscribed, "Call select-sources cast handle_token=u3 multiple=true types=1"),
            (PortalEvent::Called, "Wait"),
            (answer(PortalStage::SelectSources, 0, vec![]), "Subscribe start u4"),
            (PortalEvent::SubscribeFailed(fault("m")), "Wait"),
        ],
    );
    assert_eq!(outcome(h), Err("wl-stage:start:internal:m".to_owned()));
}

#[test]
fn failed_calls_are_reported() {
    let mut h = PortalHandshake::new(None, false);
    h.begin();
    h.step(PortalEvent::Subscribed);
    h.step(portal(false));
    drive(&mut h, vec![(PortalEvent::CallFailed(fault("m")), "Wait")]);
    assert_eq!(outcome(h), Err("wl-stage:create-session:dbus:a.b: m".to_owned()));

    let mut h = with_session(None, false, false);
    h.step(portal(false));
    h.step(PortalEvent::Subscribed);
    let unknown = DBusFault {
        name: Some("org.freedesktop.DBus.Error.UnknownMethod".to_owned()),
        message: None,
    };
    drive(&mut h, vec![(PortalEvent::CallFailed(unknown), "Wait")]);
    assert!(!h.poll_again());
    assert_eq!(
        outcome(h),
        Err("wl-stage:select-sources:unsupported:org.freedesktop.DBus.Error.UnknownMethod".to_owned())
    );
}

#[test]
fn failed_handover_is_named() {
    let mut h = started(vec![("streams", streams())]);
    drive(
        &mut h,
        vec![
            (portal(false), "OpenRemote"),
            (PortalEvent::RemoteFailed(fault("m")), "Wait"),
        ],
    );
    assert!(!h.poll_again());
    assert_eq!(
        outcome(h),
        Err("wl-stage:open-pipewire-remote:dbus:a.b: m".to_owned())
    );
}

#[test]
fn sessions_without_streams_fail() {
    let mut h = started(vec![]);
    drive(
        &mut h,
        vec![
            (portal(false), "OpenRemote"),
            (PortalEvent::RemoteOpened(1), "Wait"),
        ],
    );
    assert_eq!(outcome(h), Err("wl-stage:streams:empty:".to_owned()));
}

#[test]
fn silence_is_reported_at_the_awaited_stage() {
    let mut h = PortalHandshake::new(None, false);
    h.begin();
    let mut polls = 0;
    while h.poll_again() {
        polls += 1;
    }
    assert_eq!(polls, 1800);
    assert_eq!(
        h.poll_err(&fault("m")),
        "wl-stage:create-session:dbus:a.b: m"
    );
    assert_eq!(outcome(h), Err("wl-stage:create-session:no-response:".to_owned()));

    let mut h = with_session(None, false, true);
    h.step(portal(true));
    assert_eq!(h.poll_err(&fault("m")), "wl-stage:select-devices:dbus:a.b: m");
    assert_eq!(outcome(h), Err("wl-stage:select-devices:no-response:".to_owned()));
}

#[test]
fn events_out_of_turn_change_nothing() {
    let mut h = PortalHandshake::new(None, false);
    h.begin();
    drive(
        &mut h,
        vec![
            (PortalEvent::RemoteOpened(1), "Wait"),
            (PortalEvent::CallFailed(fault("m")), "Wait"),
            (PortalEvent::TokenSaved, "Wait"),
            (portal(true), "Wait"),
            (PortalEvent::Subscribed, "ChoosePortal"),
        ],
    );
    assert_eq!(h.fd, None);
    assert!(!h.trace.failed);
}

#[test]
fn requests_are_made_for_the_granted_session() {
    let mut h = PortalHandshake::new(None, false);
    assert_eq!(h.call_path(), "/");
    h.begin();
    assert_eq!(h.call_path(), "/");
    let mut h = with_session(None, false, false);
    assert_eq!(h.call_path(), "/s/1");
    h.step(answer(PortalStage::Start, 1, vec![("session_handle", text("/s/2"))]));
    assert_eq!(h.call_path(), "/s/1");
}
