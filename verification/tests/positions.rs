use scrap_wayland::capturable::{Display, PipeWireCapturable, PwStreamInfo};
use scrap_wayland::display::{DisplayInfo, Displays};
use scrap_wayland::positions::{match_positions, place_at, try_fix_logical_size};

fn displays(list: &[(i32, i32, i32, i32, Option<(i32, i32)>)]) -> Displays {
    Displays {
        primary: 0,
        displays: list
            .iter()
            .map(|&(x, y, width, height, logical_size)| DisplayInfo {
                name: String::new(),
                x,
                y,
                width,
                height,
                logical_size,
                transform: 0,
            })
            .collect(),
    }
}

fn stream(position: (i32, i32), size: (usize, usize)) -> PwStreamInfo {
    PwStreamInfo {
        path: 1,
        source_type: 1,
        position,
        size,
    }
}

fn shared(position: (i32, i32), physical: (usize, usize)) -> Display {
    let s = stream(position, (1, 1));
    let mut c = PipeWireCapturable::for_size_probe(String::new(), None, &s);
    c.physical_size = physical;
    Display::WAYLAND(c)
}

fn logical(d: &Display) -> (usize, usize) {
    match d {
        Display::WAYLAND(c) => c.logical_size,
        Display::X11(_) => panic!("not a captured stream"),
    }
}

#[test]
fn logical_sizes_follow_the_displays() {
    let all = displays(&[
        (0, 0, 3840, 2160, Some((1920, 1080))),
        (3840, 0, 800, 600, None),
    ]);
    let mut v = vec![
        shared((0, 0), (3840, 2160)),
        shared((0, 0), (4640, 2160)),
        shared((3840, 0), (800, 600)),
        shared((5, 5), (3840, 2160)),
        Display::X11(0),
    ];
    try_fix_logical_size(false, &all, &mut v);
    assert_eq!(logical(&v[0]), (1, 1));
    for _ in 0..2 {
        try_fix_logical_size(true, &all, &mut v);
        assert_eq!(logical(&v[0]), (1920, 1080));
        // More than the display, a display without a logical size, no display.
        assert!(v[1..4].iter().all(|d| logical(d) == (1, 1)));
        assert!(matches!(v[4], Display::X11(0)));
        assert_eq!(v[0].get_stream_position(), Some((0, 0)));
        assert_eq!(v[0].get_stream_size(), Some((3840, 2160)));
    }
}

#[test]
fn first_display_at_the_place_fixes_the_size() {
    let all = displays(&[
        (0, 0, 8, 6, Some((4, 3))),
        (0, 0, 8, 6, Some((2, 1))),
    ]);
    let mut v = vec![shared((0, 0), (8, 6))];
    try_fix_logical_size(true, &all, &mut v);
    assert_eq!(logical(&v[0]), (4, 3));
    try_fix_logical_size(true, &displays(&[]), &mut v);
    assert_eq!(logical(&v[0]), (4, 3));
}

#[test]
fn positions_follow_the_sizes() {
    let all = displays(&[
        (0, 0, 800, 600, None),
        (800, 0, 1024, 768, None),
        (0, 600, 800, 600, None),
    ]);
    let mut v = vec![
        shared((9, 9), (1024, 768)),
        shared((9, 9), (800, 600)),
        Display::X11(3),
        shared((9, 9), (1, 2)),
    ];
    // One stream is missing.
    let mut streams = vec![stream((9, 9), (0, 0)); 3];
    let open = match_positions(&all, &mut v, &mut streams);
    assert_eq!(open, vec![1]);
    let at: Vec<_> = v.iter().map(|d| d.get_stream_position()).collect();
    assert_eq!(
        at,
        vec![Some((800, 0)), Some((0, 600)), None, Some((9, 9))]
    );
    let at: Vec<_> = streams.iter().map(|s| s.position).collect();
    assert_eq!(at, vec![(800, 0), (0, 600), (9, 9)]);
}

#[test]
fn display_and_stream_are_placed_together() {
    let mut v = vec![shared((0, 0), (1, 1)), Display::X11(1)];
    let mut streams = vec![stream((0, 0), (0, 0))];
    place_at(&mut v, &mut streams, 0, (4, 5));
    assert_eq!(v[0].get_stream_position(), Some((4, 5)));
    assert_eq!(streams[0].position, (4, 5));
    place_at(&mut v, &mut streams, 1, (6, 7));
    assert_eq!(v[1].get_stream_position(), None);
    assert_eq!(v[1].get_stream_size(), None);
    assert_eq!(streams.len(), 1);
    assert_eq!(streams[0].position, (4, 5));
    v[0].set_position((1, 2));
    assert_eq!(v[0].get_stream_position(), Some((1, 2)));
}
