use scrap_wayland::capturable::{Display, PipeWireCapturable, PwStreamInfo};
use scrap_wayland::display::{DisplayInfo, Displays};
use scrap_wayland::fill::{
    after_fill, asks_positions, fill_displays, fill_multi_matched_positions,
    next_filling_step, supports_embedded_cursor, try_fill_positions, FillAction, FillStep, Filled,
    Finding, Progress, Search, StoredOffsets,
};
use scrap_wayland::offsets::PipewireDisplayOffsetCache;
use scrap_wayland::session::{CaptureState, RdpSessionInfo};

fn displays(primary: usize, list: &[(i32, i32, i32)]) -> Displays {
    Displays {
        primary,
        displays: list
            .iter()
            .map(|&(x, width, height)| DisplayInfo {
                name: "D".to_owned(),
                x,
                y: 0,
                width,
                height,
                logical_size: None,
                transform: 0,
            })
            .collect(),
    }
}

fn stream(path: u64, x: i32) -> PwStreamInfo {
    PwStreamInfo {
        path,
        source_type: 1,
        position: (x, 0),
        size: (0, 0),
    }
}

fn shared(s: &PwStreamInfo, physical: (usize, usize)) -> Display {
    let mut c = PipeWireCapturable::for_size_probe(String::new(), None, s);
    c.physical_size = physical;
    Display::WAYLAND(c)
}

fn held(streams: Vec<PwStreamInfo>) -> CaptureState {
    let mut state = CaptureState::new();
    state.session = Some(RdpSessionInfo::new(
        String::new(),
        streams,
        None,
        String::new(),
        true,
    ));
    state
}

fn marks(v: &[Display]) -> Vec<(u64, bool)> {
    v.iter()
        .map(|d| match d {
            Display::WAYLAND(c) => (c.path, c.primary),
            Display::X11(_) => (0, false),
        })
        .collect()
}

#[test]
fn stored_positions_come_before_sizes() {
    let all = displays(0, &[(0, 800, 600), (800, 800, 600)]);
    let cache = || PipewireDisplayOffsetCache {
        display_key: PipewireDisplayOffsetCache::displays_to_key(&all),
        restore_token: "t".to_owned(),
        offsets: vec![(0, 0)],
    };
    let run = |stored: StoredOffsets, token: &str| {
        let mut streams = vec![stream(1, 5)];
        let mut v = vec![shared(&streams[0], (800, 600))];
        let r = try_fill_positions(&stored, &all, token, &mut v, &mut streams);
        assert_eq!(v[0].get_stream_position(), Some(streams[0].position));
        let filled = match r {
            Filled::FromCache => None,
            Filled::BySize {
                ambiguous,
                discard_stored,
            } => Some((ambiguous, discard_stored)),
        };
        (filled, streams[0].position)
    };
    assert_eq!(run(StoredOffsets::Stored(cache()), "t"), (None, (0, 0)));
    let by_size = |discard| (Some((vec![0], discard)), (800, 0));
    assert_eq!(run(StoredOffsets::Stored(cache()), "u"), by_size(true));
    assert_eq!(run(StoredOffsets::Unreadable, "t"), by_size(true));
    assert_eq!(run(StoredOffsets::Absent, "t"), by_size(false));
}

#[test]
fn embedded_cursor_is_the_second_bit() {
    for modes in 0..16u32 {
        assert_eq!(supports_embedded_cursor(Some(modes)), modes & 2 != 0);
    }
    assert!(!supports_embedded_cursor(None));
    assert!(fill_multi_matched_positions(&vec![0], Some(7)));
    assert!(!fill_multi_matched_positions(&vec![], Some(7)));
    assert!(!fill_multi_matched_positions(&vec![0], Some(5)));
    assert!(!fill_multi_matched_positions(&vec![0], None));
}

#[test]
fn positions_are_asked_for_several_displays() {
    let two = displays(0, &[(0, 8, 6), (8, 8, 6)]);
    let one = displays(0, &[(0, 8, 6)]);
    let mut state = held(vec![]);
    assert!(asks_positions(&state, true, &two));
    assert!(!asks_positions(&state, true, &one));
    assert!(!asks_positions(&state, false, &two));
    state.has_position_attr = true;
    assert!(!asks_positions(&state, true, &two));
    assert!(!asks_positions(&CaptureState::new(), true, &two));
}

#[test]
fn displays_are_sorted_and_marked() {
    let two = displays(1, &[(0, 8, 6), (8, 8, 6)]);
    let streams = vec![stream(1, 0), stream(2, 8)];
    let mut v: Vec<_> = streams.iter().map(|s| shared(s, (8, 6))).collect();
    let mut state = held(streams);
    // The positions are asked for first, and nothing changes.
    assert_eq!(
        fill_displays(&mut state, true, &two, &mut v, Finding::Pending),
        Ok(Progress::FindPositions)
    );
    assert_eq!(marks(&v), vec![(1, false), (2, false)]);
    assert!(!state.has_position_attr);
    assert_eq!(
        fill_displays(&mut state, true, &two, &mut v, Finding::Found),
        Ok(Progress::Finished)
    );
    assert_eq!(marks(&v), vec![(2, true), (1, false)]);
    assert!(state.has_position_attr);
    let paths: Vec<_> = state.session.unwrap().streams.iter().map(|s| s.path).collect();
    assert_eq!(paths, vec![2, 1]);
}

#[test]
fn single_display_is_only_marked() {
    let one = displays(0, &[(0, 8, 6)]);
    let streams = vec![stream(1, 3), stream(2, 8)];
    let mut v: Vec<_> = streams.iter().map(|s| shared(s, (8, 6))).collect();
    let mut state = held(streams);
    assert_eq!(
        fill_displays(&mut state, true, &one, &mut v, Finding::Pending),
        Ok(Progress::Finished)
    );
    assert_eq!(marks(&v), vec![(1, true), (2, false)]);
    assert!(state.has_position_attr);
    let mut v = vec![Display::X11(0)];
    assert_eq!(
        fill_displays(&mut state, true, &one, &mut v, Finding::Pending),
        Ok(Progress::Finished)
    );
    assert_eq!(marks(&v), vec![(0, false)]);
}

#[test]
fn filling_needs_the_server_and_a_session() {
    let one = displays(0, &[(0, 8, 6)]);
    let mut v = vec![shared(&stream(1, 0), (8, 6))];
    let mut state = CaptureState::new();
    for finding in [
        Finding::Pending,
        Finding::Found,
        Finding::Failed("no".to_owned()),
    ] {
        assert_eq!(
            fill_displays(&mut state, false, &one, &mut v, finding),
            Ok(Progress::Finished)
        );
    }
    assert_eq!(
        fill_displays(&mut state, true, &one, &mut v, Finding::Pending),
        Err("RDP session info is None when filling display positions.".to_owned())
    );
    assert_eq!(marks(&v), vec![(1, false)]);
    assert!(!state.has_position_attr);
}

/// What follows, in short.
fn follows(filled: &Filled, modes: Option<u32>, search: Search, token: &str) -> String {
    let all = displays(0, &[(0, 8, 6), (8, 8, 6)]);
    let v = vec![shared(&stream(1, 8), (8, 6))];
    match after_fill(filled, modes, search, &all, &v, token) {
        FillAction::Done => "done".to_owned(),
        FillAction::Search(indices) => format!("search {indices:?}"),
        FillAction::Fail(text) => format!("fail {text}"),
        FillAction::Save(None) => "save nothing".to_owned(),
        FillAction::Save(Some(c)) => {
            format!("save {} {} {:?}", c.display_key, c.restore_token, c.offsets)
        }
    }
}

fn by_size(ambiguous: Vec<usize>) -> Filled {
    Filled::BySize {
        ambiguous,
        discard_stored: false,
    }
}

const SAVED: &str = "save D-0-0-8-6;D-8-0-8-6 t [(8, 0)]";

#[test]
fn nothing_follows_stored_positions() {
    assert!(!Filled::FromCache.asks_cursor_modes());
    assert_eq!(follows(&Filled::FromCache, Some(2), Search::Pending, "t"), "done");
}

#[test]
fn settled_positions_are_saved() {
    let filled = by_size(vec![]);
    assert!(!filled.asks_cursor_modes());
    assert_eq!(follows(&filled, None, Search::Pending, "t"), SAVED);
    assert_eq!(follows(&filled, Some(2), Search::Pending, "t"), SAVED);
    assert_eq!(follows(&filled, None, Search::Pending, ""), "save nothing");
}

#[test]
fn open_places_are_searched_with_an_embedded_cursor() {
    let filled = by_size(vec![0, 3]);
    assert!(filled.asks_cursor_modes());
    assert_eq!(follows(&filled, Some(2), Search::Pending, "t"), "search [0, 3]");
    assert_eq!(follows(&filled, Some(2), Search::Finished, "t"), SAVED);
    let failed = Search::Failed("no".to_owned());
    assert_eq!(follows(&filled, Some(2), failed, "t"), "fail no");
    assert_eq!(follows(&filled, Some(5), Search::Pending, "t"), SAVED);
    assert_eq!(follows(&filled, None, Search::Pending, "t"), SAVED);
}

#[test]
fn failed_finding_changes_nothing() {
    let two = displays(1, &[(0, 8, 6), (8, 8, 6)]);
    let streams = vec![stream(1, 0), stream(2, 8)];
    let mut v: Vec<_> = streams.iter().map(|s| shared(s, (8, 6))).collect();
    let mut state = held(streams);
    let failed = || Finding::Failed("wl-stage:start:declined:".to_owned());
    assert_eq!(
        fill_displays(&mut state, true, &two, &mut v, failed()),
        Err("wl-stage:start:declined:".to_owned())
    );
    assert!(!state.has_position_attr);
    assert_eq!(marks(&v), vec![(1, false), (2, false)]);
    // Also where positions came meanwhile.
    state.has_position_attr = true;
    assert_eq!(
        fill_displays(&mut state, true, &two, &mut v, failed()),
        Err("wl-stage:start:declined:".to_owned())
    );
    let paths: Vec<_> = state.session.unwrap().streams.iter().map(|s| s.path).collect();
    assert_eq!(paths, vec![1, 2]);
}

#[test]
fn positions_are_found_before_sorting() {
    let two = displays(0, &[(0, 8, 6), (8, 8, 6)]);
    let one = displays(0, &[(0, 8, 6)]);
    let mut state = held(vec![]);
    let step = |s: &CaptureState, running, d: &Displays, f| next_filling_step(s, running, d, f);
    assert!(matches!(
        step(&state, true, &two, Finding::Pending),
        FillStep::FindPositions
    ));
    assert!(matches!(step(&state, true, &two, Finding::Found), FillStep::Sort));
    assert!(matches!(step(&state, true, &one, Finding::Pending), FillStep::Sort));
    assert!(matches!(step(&state, false, &two, Finding::Pending), FillStep::Leave));
    state.has_position_attr = true;
    assert!(matches!(step(&state, true, &two, Finding::Pending), FillStep::Sort));
    let gone = CaptureState::new();
    assert!(matches!(
        step(&gone, true, &two, Finding::Found),
        FillStep::Fail(_)
    ));
}
