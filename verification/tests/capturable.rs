use scrap_wayland::capturable::{PipeWireCapturable, PwStreamInfo};
use scrap_wayland::display::{DisplayInfo, Displays};

fn display(x: i32, y: i32, width: i32, height: i32, transform: i32) -> DisplayInfo {
    DisplayInfo {
        name: String::new(),
        x,
        y,
        width,
        height,
        logical_size: None,
        transform,
    }
}

fn stream(position: (i32, i32), size: (usize, usize)) -> PwStreamInfo {
    PwStreamInfo {
        path: 41,
        source_type: 1,
        position,
        size,
    }
}

fn resolved(
    displays: Vec<DisplayInfo>,
    stream: &PwStreamInfo,
    probed: Option<(usize, usize)>,
) -> (usize, usize) {
    let displays = Displays {
        primary: 0,
        displays,
    };
    let mut resolution = None;
    let c = PipeWireCapturable::new(
        ":1.7".to_owned(),
        Some(9),
        &mut resolution,
        &displays,
        stream,
        probed,
    );
    assert_eq!(resolution, Some(c.physical_size));
    assert_eq!(
        (c.bus_name.as_str(), c.fd, c.path, c.source_type, c.primary),
        (":1.7", Some(9), 41, 1, false)
    );
    assert_eq!((c.position, c.logical_size), (stream.position, stream.size));
    c.physical_size
}

#[test]
fn stream_tells_size_and_position() {
    let s = stream((3, -4), (5, 6));
    assert_eq!(s.get_size(), (5, 6));
    assert_eq!(s.get_position(), (3, -4));
}

#[test]
fn size_is_that_of_the_shown_display() {
    let displays = || vec![display(0, 0, 800, 600, 0), display(800, 0, 1024, 768, 90)];
    assert_eq!(resolved(displays(), &stream((0, 0), (1, 1)), None), (800, 600));
    assert_eq!(resolved(displays(), &stream((800, 0), (1, 1)), None), (768, 1024));
    // Elsewhere the first display counts.
    assert_eq!(resolved(displays(), &stream((7, 7), (1, 1)), Some((2, 2))), (800, 600));
}

#[test]
fn size_falls_back_to_the_stream_and_to_full_hd() {
    let flat = || vec![display(0, 0, 0, 600, 0)];
    assert_eq!(resolved(flat(), &stream((0, 0), (4, 3)), None), (4, 3));
    assert_eq!(resolved(flat(), &stream((0, 0), (4, 0)), Some((8, 8))), (1920, 1080));
    assert_eq!(resolved(vec![], &stream((0, 0), (4, 3)), Some((8, 8))), (4, 3));
}

#[test]
fn size_without_displays_comes_from_a_frame() {
    let bare = stream((0, 0), (0, 3));
    let none = Displays {
        primary: 0,
        displays: vec![],
    };
    assert_eq!(PipeWireCapturable::size_without_frame(&none, &bare), None);
    assert_eq!(resolved(vec![], &bare, Some((8, 9))), (8, 9));
    assert_eq!(resolved(vec![], &bare, None), (0, 3));
}

#[test]
fn capturable_for_a_probe_has_no_size() {
    let c = PipeWireCapturable::for_size_probe("b".to_owned(), None, &stream((1, 2), (3, 4)));
    assert_eq!(c.physical_size, (0, 0));
    assert_eq!((c.path, c.source_type, c.primary, c.fd), (41, 1, false, None));
    assert_eq!((c.position, c.logical_size), ((1, 2), (3, 4)));
}

#[test]
fn capturable_has_a_name_and_a_description() {
    let mut c = PipeWireCapturable::for_size_probe(":1.7".to_owned(), None, &stream((0, 0), (0, 0)));
    assert_eq!(c.name(), "Pipewire Desktop, path: 41");
    assert_eq!(
        c.to_debug_text(),
        "PipeWireCapturable {dbus: :1.7, fd: -1, path: 41, source_type: 1}"
    );
    c.source_type = 2;
    c.fd = Some(12);
    assert_eq!(c.name(), "Pipewire Window, path: 41");
    assert_eq!(
        c.to_debug_text(),
        "PipeWireCapturable {dbus: :1.7, fd: 12, path: 41, source_type: 2}"
    );
    c.source_type = 3;
    assert_eq!(c.name(), "Pipewire Unknow, path: 41");
}
