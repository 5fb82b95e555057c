use scrap_wayland::capturable::{Display, PipeWireCapturable, PwStreamInfo};
use scrap_wayland::display::{DisplayInfo, Displays};
use scrap_wayland::offsets::{
    save_positions_to_cache, try_fill_positions_from_cache, PipewireDisplayOffsetCache,
};

fn displays(list: &[(&str, i32, i32, i32, i32)]) -> Displays {
    Displays {
        primary: 0,
        displays: list
            .iter()
            .map(|&(name, x, y, width, height)| DisplayInfo {
                name: name.to_owned(),
                x,
                y,
                width,
                height,
                logical_size: None,
                transform: 0,
            })
            .collect(),
    }
}

fn two() -> Displays {
    displays(&[("DP-1", 0, 0, 800, 600), ("HDMI-A-1", 800, -5, 800, 600)])
}

fn stream(position: (i32, i32)) -> PwStreamInfo {
    PwStreamInfo {
        path: 1,
        source_type: 1,
        position,
        size: (0, 0),
    }
}

fn shared(position: (i32, i32)) -> Display {
    Display::WAYLAND(PipeWireCapturable::for_size_probe(
        String::new(),
        None,
        &stream(position),
    ))
}

fn positions(v: &[Display]) -> Vec<Option<(i32, i32)>> {
    v.iter().map(|d| d.get_stream_position()).collect()
}

#[test]
fn key_names_places_and_sizes() {
    assert_eq!(
        PipewireDisplayOffsetCache::displays_to_key(&two()),
        "DP-1-0-0-800-600;HDMI-A-1-800--5-800-600"
    );
    assert_eq!(PipewireDisplayOffsetCache::displays_to_key(&displays(&[])), "");
    assert_eq!(
        PipewireDisplayOffsetCache::displays_to_key(&displays(&[("", 1, 2, 3, 4)])),
        "-1-2-3-4"
    );
}

#[test]
fn key_changes_with_every_display() {
    let key = PipewireDisplayOffsetCache::displays_to_key(&two());
    for other in [
        displays(&[("DP-1", 0, 0, 800, 600)]),
        displays(&[("DP-1", 0, 0, 800, 600), ("HDMI-A-1", 800, 5, 800, 600)]),
        displays(&[("DP-2", 0, 0, 800, 600), ("HDMI-A-1", 800, -5, 800, 600)]),
        displays(&[("HDMI-A-1", 800, -5, 800, 600), ("DP-1", 0, 0, 800, 600)]),
    ] {
        assert_ne!(PipewireDisplayOffsetCache::displays_to_key(&other), key);
    }
}

#[test]
fn odd_names_can_read_as_other_displays() {
    // A name that ends with a dash.
    assert_eq!(
        PipewireDisplayOffsetCache::displays_to_key(&displays(&[("A-", 5, 0, 1, 1)])),
        PipewireDisplayOffsetCache::displays_to_key(&displays(&[("A", -5, 0, 1, 1)]))
    );
}

#[test]
fn stored_positions_come_back() {
    let stored = vec![shared((800, -5)), shared((0, 0))];
    let cache = save_positions_to_cache(&two(), &stored, "token").unwrap();
    assert_eq!(cache.display_key, "DP-1-0-0-800-600;HDMI-A-1-800--5-800-600");
    assert_eq!(cache.restore_token, "token");
    assert_eq!(cache.offsets, vec![(800, -5), (0, 0)]);

    let mut later = vec![shared((1, 1)), shared((1, 1))];
    let mut streams = vec![stream((1, 1))];
    assert!(try_fill_positions_from_cache(
        Some(&cache),
        &two(),
        "token",
        &mut later,
        &mut streams
    ));
    assert_eq!(positions(&later), positions(&stored));
    assert_eq!(streams[0].position, (800, -5));
}

#[test]
fn positions_are_stored_with_a_token_only() {
    assert!(save_positions_to_cache(&two(), &vec![shared((0, 0))], "").is_none());
}

#[test]
fn stored_positions_count_for_the_same_displays_only() {
    let cache = save_positions_to_cache(&two(), &vec![shared((8, 8))], "token").unwrap();
    let mut v = vec![shared((1, 1))];
    let mut streams = vec![stream((1, 1))];
    let more = displays(&[
        ("DP-1", 0, 0, 800, 600),
        ("HDMI-A-1", 800, -5, 800, 600),
        ("DP-3", 1600, 0, 800, 600),
    ]);
    assert!(!try_fill_positions_from_cache(None, &two(), "token", &mut v, &mut streams));
    assert!(!try_fill_positions_from_cache(Some(&cache), &more, "token", &mut v, &mut streams));
    assert!(!try_fill_positions_from_cache(Some(&cache), &two(), "other", &mut v, &mut streams));
    assert_eq!(positions(&v), vec![Some((1, 1))]);
    assert_eq!(streams[0].position, (1, 1));
    v.push(shared((2, 2)));
    assert!(!try_fill_positions_from_cache(Some(&cache), &two(), "token", &mut v, &mut streams));
    assert_eq!(positions(&v), vec![Some((1, 1)), Some((2, 2))]);
}

#[test]
fn positions_of_captured_streams_only_are_stored() {
    let v = vec![shared((3, 4)), Display::X11(0)];
    let cache = save_positions_to_cache(&two(), &v, "token").unwrap();
    assert_eq!(cache.offsets, vec![(3, 4)]);
    let mut later = vec![shared((1, 1)), Display::X11(0)];
    let mut streams = vec![stream((1, 1)), stream((1, 1))];
    assert!(!try_fill_positions_from_cache(
        Some(&cache),
        &two(),
        "token",
        &mut later,
        &mut streams
    ));
    // A list that happens to be long enough leaves other displays and their streams alone.
    let long = PipewireDisplayOffsetCache {
        offsets: vec![(3, 4), (5, 6)],
        ..cache
    };
    assert!(try_fill_positions_from_cache(
        Some(&long),
        &two(),
        "token",
        &mut later,
        &mut streams
    ));
    assert_eq!(positions(&later), vec![Some((3, 4)), None]);
    assert_eq!(streams[1].position, (1, 1));
}
