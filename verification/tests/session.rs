use scrap_wayland::capturable::PwStreamInfo;
use scrap_wayland::display::{DisplayInfo, Displays};
use scrap_wayland::fill::asks_positions;
use scrap_wayland::handshake::{GrantedSession, PortalHandshake};
use scrap_wayland::mutter::mutter_streams;
use scrap_wayland::session::{
    after_opening, begin_open, close_session, get_capturables, is_rdp_session_hold,
    streams_to_probe, take_over_positions, try_close_session, CaptureState, OpenAction, OpenEvent,
    RdpSessionInfo,
};

fn stream(path: u64, position: (i32, i32), size: (usize, usize)) -> PwStreamInfo {
    PwStreamInfo {
        path,
        source_type: 1,
        position,
        size,
    }
}

fn held(restore: bool) -> CaptureState {
    let mut state = CaptureState::new();
    state.session = Some(RdpSessionInfo::new(
        ":1.9".to_owned(),
        vec![stream(1, (0, 0), (8, 6)), stream(2, (8, 0), (0, 0))],
        Some(3),
        "/session".to_owned(),
        restore,
    ));
    state.has_position_attr = true;
    state.displays = Some(none());
    state.choice.use_remote_desktop = Some(false);
    state
}

fn none() -> Displays {
    Displays {
        primary: 0,
        displays: vec![],
    }
}

#[test]
fn new_state_holds_nothing() {
    let state = CaptureState::new();
    assert!(!is_rdp_session_hold(&state));
    assert!(!state.has_position_attr);
    assert!(state.displays.is_none());
    assert_eq!(state.choice.server_running, None);
    assert_eq!(state.choice.use_remote_desktop, None);
}

#[test]
fn closing_forgets_the_session() {
    let mut state = held(false);
    assert!(is_rdp_session_hold(&state));
    for _ in 0..2 {
        close_session(&mut state);
        assert!(!is_rdp_session_hold(&state));
        assert!(!state.has_position_attr);
        assert!(state.displays.is_none());
        assert_eq!(state.choice.use_remote_desktop, Some(false));
    }
}

#[test]
fn only_restorable_sessions_are_closed() {
    for (restore, remote_desktop, kept) in [
        (true, false, false),
        (true, true, true),
        (false, false, true),
        (false, true, true),
    ] {
        let mut state = held(restore);
        try_close_session(&mut state, remote_desktop);
        assert_eq!(is_rdp_session_hold(&state), kept);
        assert_eq!(state.has_position_attr, kept);
        assert_eq!(state.displays.is_some(), kept);
    }
    let mut state = CaptureState::new();
    state.has_position_attr = true;
    try_close_session(&mut state, false);
    assert!(state.has_position_attr);
}

#[test]
fn capturables_stand_for_the_streams() {
    let mut state = held(true);
    let probed = vec![None, Some((64, 48))];
    let v = get_capturables(&mut state, &none(), &probed).unwrap();
    let sizes: Vec<_> = v.iter().map(|c| (c.path, c.physical_size)).collect();
    assert_eq!(sizes, vec![(1, (8, 6)), (2, (64, 48))]);
    assert!(v.iter().all(|c| c.bus_name == ":1.9" && c.fd == Some(3) && !c.primary));
    assert_eq!(v[1].position, (8, 0));
    assert_eq!(v[1].logical_size, (0, 0));
    let session = state.session.unwrap();
    assert_eq!(session.resolution, Some((64, 48)));
    assert_eq!(session.session, "/session");
}

#[test]
fn capturables_need_a_session() {
    let mut state = CaptureState::new();
    let e = get_capturables(&mut state, &none(), &vec![]).unwrap_err();
    assert_eq!(e.to_text(), "RDP response is None.");
}

#[test]
fn sessions_without_streams_keep_their_resolution() {
    let mut state = held(true);
    if let Some(s) = &mut state.session {
        s.streams.clear();
    }
    assert!(get_capturables(&mut state, &none(), &vec![]).unwrap().is_empty());
    assert_eq!(state.session.unwrap().resolution, None);
}

#[test]
fn only_unknown_sizes_are_probed() {
    let session = held(true).session.unwrap();
    assert_eq!(streams_to_probe(&session, &none()), vec![false, true]);
    let one = Displays {
        primary: 0,
        displays: vec![DisplayInfo {
            name: String::new(),
            x: 0,
            y: 0,
            width: 8,
            height: 6,
            logical_size: None,
            transform: 0,
        }],
    };
    assert_eq!(streams_to_probe(&session, &one), vec![false, false]);
}

#[test]
fn compositor_is_asked_first() {
    let mut state = CaptureState::new();
    assert!(matches!(begin_open(&state), OpenAction::TryCast));
    let cast = OpenEvent::Cast {
        bus_name: ":1.5".to_owned(),
        streams: mutter_streams(7, &none()),
        session: "/cast".to_owned(),
    };
    assert!(matches!(after_opening(&mut state, cast), OpenAction::Held));
    assert!(matches!(begin_open(&state), OpenAction::Held));
    // Neither portal makes it dispensable.
    try_close_session(&mut state, false);
    let info = state.session.unwrap();
    assert_eq!((info.bus_name.as_str(), info.session.as_str()), (":1.5", "/cast"));
    assert_eq!((info.fd, info.is_support_restore_token), (None, false));
    assert_eq!(info.resolution, None);
    assert_eq!(info.streams.len(), 1);
    assert_eq!((info.streams[0].path, info.streams[0].size), (7, (3840, 2160)));
}

#[test]
fn portal_is_asked_after_the_compositor() {
    let mut state = CaptureState::new();
    state.choice.use_remote_desktop = Some(true);
    assert!(matches!(
        after_opening(&mut state, OpenEvent::CastFailed),
        OpenAction::AskPortal
    ));
    assert!(!is_rdp_session_hold(&state));
    let granted = OpenEvent::Granted {
        bus_name: ":1.6".to_owned(),
        granted: GrantedSession {
            fd: 12,
            session: "/granted".to_owned(),
            streams: vec![stream(3, (0, 0), (8, 6)), stream(4, (8, 0), (8, 6))],
            is_support_restore_token: true,
        },
    };
    assert!(matches!(after_opening(&mut state, granted), OpenAction::Held));
    assert_eq!(state.choice.use_remote_desktop, Some(true));
    let info = state.session.unwrap();
    assert_eq!((info.bus_name.as_str(), info.session.as_str()), (":1.6", "/granted"));
    assert_eq!((info.fd, info.is_support_restore_token), (Some(12), true));
    let paths: Vec<_> = info.streams.iter().map(|s| s.path).collect();
    assert_eq!(paths, vec![3, 4]);
}

#[test]
fn refused_session_is_not_held() {
    let mut state = CaptureState::new();
    let refused = OpenEvent::Refused("wl-stage:start:declined:".to_owned());
    match after_opening(&mut state, refused) {
        OpenAction::Fail(text) => assert_eq!(text, "wl-stage:start:declined:"),
        other => panic!("{other:?}"),
    }
    assert!(!is_rdp_session_hold(&state));
    assert!(matches!(begin_open(&state), OpenAction::TryCast));
}

#[test]
fn positions_that_came_are_not_searched() {
    let display = |x| DisplayInfo {
        name: String::new(),
        x,
        y: 0,
        width: 8,
        height: 6,
        logical_size: None,
        transform: 0,
    };
    let two = Displays {
        primary: 0,
        displays: vec![display(0), display(8)],
    };
    let mut state = held(false);
    state.has_position_attr = false;
    let mut handshake = PortalHandshake::new(None, false);
    take_over_positions(&mut state, &handshake);
    assert!(!state.has_position_attr);
    assert!(asks_positions(&state, true, &two));
    handshake.has_position = true;
    take_over_positions(&mut state, &handshake);
    assert!(state.has_position_attr);
    assert!(!asks_positions(&state, true, &two));
    // What came once stays.
    handshake.has_position = false;
    take_over_positions(&mut state, &handshake);
    assert!(state.has_position_attr);
    assert!(is_rdp_session_hold(&state));
}
